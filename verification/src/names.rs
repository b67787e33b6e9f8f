//! Names and members: what a bare name denotes in an expression, the fields
//! and members a value of a type offers, and enum variants.
use vstd::prelude::*;
use crate::ast;
use crate::checkenv::{dup_fields, dup_tys, env_wf, extends, kind_of, same_variant, suggest_fix, Env, NameKind, VariantDef};
use crate::contracts::direction;
use crate::diagnostic::Severity;
use crate::fnstate::{err, lookup_scope, scope_lookup, scope_names, st_ok, Cx, FnState, Mode};
use crate::span;
use crate::table::{find_key, keys_unique, spec_find};
use crate::text::{cat2, cat3, cat5, owned, push_str, str_eq};
use crate::types::Ty;

verus! {

broadcast use vstd::string::group_string_axioms;

/// The type of a bare name: its binding in scope, else `Unknown` (an
/// import, or an error).
pub open spec fn name_type(scopes: Seq<Vec<(String, Ty)>>, name: Seq<char>) -> Ty {
    match scope_lookup(scopes, name) {
        Some(t) => t,
        None => Ty::Unknown,
    }
}

/// Whether a bare name is accepted as a value without a diagnostic: bound in
/// scope, or an opaque import.
pub open spec fn name_ok(cx: Cx, scopes: Seq<Vec<(String, Ty)>>, name: Seq<char>) -> bool {
    scope_lookup(scopes, name) is Some || (
        !(cx.mode == Mode::Requires && name == "result"@) && kind_of(*cx.env, name) == Some(NameKind::Import))
}

/// The code reported for a bare name that is not a value.
pub open spec fn name_code(cx: Cx, name: Seq<char>) -> Seq<char> {
    if cx.mode == Mode::Requires && name == "result"@ {
        "KEI-E4002"@
    } else {
        match kind_of(*cx.env, name) {
            Some(_) => "KEI-E2001"@,
            None => "KEI-E1001"@,
        }
    }
}

/// The type of a bare name used as a value. `result` outside `ensures`
/// (`KEI-E4002`), a function or type used as a value (`KEI-E2001`) and an
/// undefined name (`KEI-E1001`, with the closest name as fix) are reported.
pub fn infer_name(cx: &Cx, st: &mut FnState, name: &str, s: span::Span) -> (r: Ty)
    requires
        st_ok(*cx, *old(st)),
        env_wf(*cx.env),
    ensures
        st_ok(*cx, *final(st)),
        final(st).scopes == old(st).scopes,
        final(st).list_ops == old(st).list_ops,
        extends(old(st).diags@, final(st).diags@),
        r == name_type(old(st).scopes@, name@),
        name_ok(*cx, old(st).scopes@, name@) ==> final(st).diags@ == old(st).diags@,
        !name_ok(*cx, old(st).scopes@, name@) ==> final(st).diags@.len() == old(st).diags@.len() + 1
            && final(st).diags@.last().code@ == name_code(*cx, name@),
{
    if let Some(t) = lookup_scope(st, name) {
        return t;
    }
    if cx.mode == Mode::Requires && str_eq(name, "result") {
        err(cx, st, "KEI-E4002", owned("'result' is only available in 'ensures' clauses"), s,
            direction(owned("Move this condition to an 'ensures' clause")));
        return Ty::Unknown;
    }
    match cx.env.kind(name) {
        Some(NameKind::Func) => {
            err(cx, st, "KEI-E2001", cat3("function '", name, "' must be called; functions are not values in v0.1"), s,
                direction(cat3("Call '", name, "(...)'")));
            Ty::Unknown
        },
        Some(NameKind::Record) | Some(NameKind::Enum) | Some(NameKind::Alias) => {
            err(cx, st, "KEI-E2001", cat3("type '", name, "' cannot be used as a value"), s,
                direction(cat3("Construct a value of type '", name, "'")));
            Ty::Unknown
        },
        Some(NameKind::Import) => Ty::Unknown,
        None => {
            let mut candidates = scope_names(st);
            let more = cx.env.names_where(true, false);
            let mut i: usize = 0;
            while i < more.len()
                invariant
                    i <= more@.len(),
                decreases more@.len() - i,
            {
                candidates.push(more[i].clone());
                i = i + 1;
            }
            let fix = suggest_fix(&cx.env.file, name, &candidates, s, cat3("Define or import '", name, "'"));
            err(cx, st, "KEI-E1001", cat3("undefined name '", name, "'"), s, fix);
            Ty::Unknown
        },
    }
}

/// The fields of record `r`, if it is defined.
pub open spec fn record_fields(env: Env, r: Seq<char>) -> Option<Seq<(String, Ty)>> {
    match spec_find(env.records@, r) {
        Some(i) => Some(env.records@[i].1@),
        None => None,
    }
}

/// The type of the first field named `name`, if any.
pub open spec fn field_type(fields: Seq<(String, Ty)>, name: Seq<char>) -> Option<Ty> {
    match spec_find(fields, name) {
        Some(i) => Some(fields[i].1),
        None => None,
    }
}

/// The type of member `name` of a value of type `base`: a record field, the
/// `isOk`/`isErr` and `isSome`/`isNone` tests, a list's `length`; the
/// member of a tagged type is that of its underlying type. Anything else is
/// `Unknown` (and reported unless the base is `Unknown`).
pub open spec fn member_type(env: Env, base: Ty, name: Seq<char>) -> Ty
    decreases base,
{
    match base {
        Ty::Tagged { underlying, .. } => member_type(env, *underlying, name),
        Ty::Record(r) => match record_fields(env, r@) {
            Some(fs) => match field_type(fs, name) {
                Some(t) => t,
                None => Ty::Unknown,
            },
            None => Ty::Unknown,
        },
        Ty::Result(..) => if name == "isOk"@ || name == "isErr"@ { Ty::Bool } else { Ty::Unknown },
        Ty::Option(..) => if name == "isSome"@ || name == "isNone"@ { Ty::Bool } else { Ty::Unknown },
        Ty::List(..) => if name == "length"@ { Ty::Int } else { Ty::Unknown },
        _ => Ty::Unknown,
    }
}

/// Whether member `name` exists on a value of type `base` (so that no
/// diagnostic is made).
pub open spec fn member_ok(env: Env, base: Ty, name: Seq<char>) -> bool
    decreases base,
{
    match base {
        Ty::Unknown => true,
        Ty::Tagged { underlying, .. } => member_ok(env, *underlying, name),
        Ty::Record(r) => match record_fields(env, r@) {
            Some(fs) => field_type(fs, name) is Some,
            None => false,
        },
        Ty::Result(..) => name == "isOk"@ || name == "isErr"@,
        Ty::Option(..) => name == "isSome"@ || name == "isNone"@,
        Ty::List(..) => name == "length"@,
        _ => false,
    }
}

fn find_first<V>(t: &Vec<(String, V)>, k: &str) -> (r: Option<usize>)
    ensures
        r matches Some(i) ==> spec_find(t@, k@) == Some(i as int) && i < t@.len() && t@[i as int].0@ == k@,
        r is None ==> spec_find(t@, k@) is None,
{
    match find_key(t, k) {
        Some(i) => {
            proof {
                let c = choose|w: int| 0 <= w < t@.len() && t@[w].0@ == k@
                    && forall|j: int| 0 <= j < w ==> #[trigger] t@[j].0@ != k@;
                if c < i as int {
                    assert(t@[c].0@ != k@);
                } else if c > i as int {
                    assert(t@[i as int].0@ != k@);
                }
            }
            Some(i)
        },
        None => None,
    }
}

/// The member `name` of a value of type `base` (see [`member_type`]); a
/// missing member is reported (`KEI-E2002`).
pub fn field_on(cx: &Cx, st: &mut FnState, base: &Ty, name: &ast::Ident) -> (r: Ty)
    requires
        st_ok(*cx, *old(st)),
        env_wf(*cx.env),
    ensures
        st_ok(*cx, *final(st)),
        final(st).scopes == old(st).scopes,
        final(st).list_ops == old(st).list_ops,
        extends(old(st).diags@, final(st).diags@),
        r == member_type(*cx.env, *base, name.name@),
        member_ok(*cx.env, *base, name.name@) ==> final(st).diags@ == old(st).diags@,
        !member_ok(*cx.env, *base, name.name@) ==> final(st).diags@.len() == old(st).diags@.len() + 1
            && final(st).diags@.last().code@ == "KEI-E2002"@,
    decreases base,
{
    let n = name.name.as_str();
    match base {
        Ty::Unknown => Ty::Unknown,
        Ty::Tagged { underlying, .. } => field_on(cx, st, underlying, name),
        Ty::Record(r) => {
            let (fields, known) = match find_first(&cx.env.records, r.as_str()) {
                Some(i) => (dup_fields(&cx.env.records[i].1), true),
                None => (Vec::new(), false),
            };
            if known {
                if let Some(j) = find_first(&fields, n) {
                    return fields[j].1.duplicate();
                }
            }
            let mut names: Vec<String> = Vec::new();
            let mut k: usize = 0;
            while k < fields.len()
                invariant
                    k <= fields@.len(),
                decreases fields@.len() - k,
            {
                names.push(fields[k].0.clone());
                k = k + 1;
            }
            let fix = suggest_fix(&cx.env.file, n, &names, name.span, cat3("Use one of the fields of '", r.as_str(), "'"));
            err(cx, st, "KEI-E2002", cat5("no field '", n, "' on record '", r.as_str(), "'"), name.span, fix);
            Ty::Unknown
        },
        Ty::Result(..) => {
            if str_eq(n, "isOk") || str_eq(n, "isErr") {
                return Ty::Bool;
            }
            let b = base.text();
            let mut m = cat5("no member '", n, "' on '", b.as_str(), "'; available members: isOk, isErr");
            err(cx, st, "KEI-E2002", m, name.span, direction(owned("Use one of: isOk, isErr")));
            Ty::Unknown
        },
        Ty::Option(..) => {
            if str_eq(n, "isSome") || str_eq(n, "isNone") {
                return Ty::Bool;
            }
            let b = base.text();
            let m = cat5("no member '", n, "' on '", b.as_str(), "'; available members: isSome, isNone");
            err(cx, st, "KEI-E2002", m, name.span, direction(owned("Use one of: isSome, isNone")));
            Ty::Unknown
        },
        Ty::List(_) => {
            if str_eq(n, "length") {
                return Ty::Int;
            }
            if str_eq(n, "isEmpty") || str_eq(n, "get") || str_eq(n, "map") || str_eq(n, "filter") || str_eq(n, "fold")
                || str_eq(n, "all") || str_eq(n, "any") {
                let m = cat5("'", n, "' is a List method; call it as 'xs.", n, "(...)'");
                err(cx, st, "KEI-E2002", m, name.span, direction(cat3("Call the method: 'xs.", n, "(...)'")));
                return Ty::Unknown;
            }
            let members = list_members();
            let fix = suggest_fix(&cx.env.file, n, &members, name.span,
                owned("Use one of: length, isEmpty, get, map, filter, fold, all, any"));
            err(cx, st, "KEI-E2002", cat3("no member '", n, "' on 'List'"), name.span, fix);
            Ty::Unknown
        },
        _ => {
            let b = base.text();
            err(cx, st, "KEI-E2002", cat3("type '", b.as_str(), "' has no fields"), name.span,
                direction(owned("Access fields only on record values")));
            Ty::Unknown
        },
    }
}

/// The members of a list, properties and methods.
pub fn list_members() -> (r: Vec<String>)
    ensures
        r@.map_values(|s: String| s@) == seq!["length"@, "isEmpty"@, "get"@, "map"@, "filter"@, "fold"@, "all"@, "any"@],
{
    let mut v: Vec<String> = Vec::new();
    v.push(owned("length"));
    v.push(owned("isEmpty"));
    v.push(owned("get"));
    v.push(owned("map"));
    v.push(owned("filter"));
    v.push(owned("fold"));
    v.push(owned("all"));
    v.push(owned("any"));
    assert(v@.map_values(|s: String| s@) =~= seq!["length"@, "isEmpty"@, "get"@, "map"@, "filter"@, "fold"@, "all"@, "any"@]);
    v
}

/// The variants of enum `e`, if it is defined.
pub open spec fn enum_variants(env: Env, e: Seq<char>) -> Option<Seq<(String, VariantDef)>> {
    match spec_find(env.enums@, e) {
        Some(i) => Some(env.enums@[i].1@),
        None => None,
    }
}

/// The payload of variant `v` of enum `e`, if both exist.
pub open spec fn variant_of(env: Env, e: Seq<char>, v: Seq<char>) -> Option<VariantDef> {
    match enum_variants(env, e) {
        Some(vs) => match spec_find(vs, v) {
            Some(i) => Some(vs[i].1),
            None => None,
        },
        None => None,
    }
}

/// A copy of the payload of variant `v` of enum `e`.
pub fn find_variant(env: &Env, e: &str, v: &str) -> (r: Option<VariantDef>)
    ensures
        r is Some <==> variant_of(*env, e@, v@) is Some,
        r matches Some(d) ==> same_variant(d, variant_of(*env, e@, v@)->0),
{
    match find_first(&env.enums, e) {
        Some(i) => match find_first(&env.enums[i].1, v) {
            Some(j) => Some(env.enums[i].1[j].1.duplicate()),
            None => None,
        },
        None => None,
    }
}

/// The names of the variants of enum `e` (none when it is not defined).
pub fn variant_names(env: &Env, e: &str) -> (r: Vec<String>)
    ensures
        r@.map_values(|s: String| s@) == (match enum_variants(*env, e@) {
            Some(vs) => vs.map_values(|p: (String, VariantDef)| p.0@),
            None => Seq::empty(),
        }),
{
    let mut out: Vec<String> = Vec::new();
    match find_first(&env.enums, e) {
        Some(i) => {
            let vs = &env.enums[i].1;
            let mut k: usize = 0;
            while k < vs.len()
                invariant
                    k <= vs@.len(),
                    out@.map_values(|s: String| s@) == vs@.take(k as int).map_values(|p: (String, VariantDef)| p.0@),
                decreases vs@.len() - k,
            {
                let ghost o0 = out@;
                let c = vs[k].0.clone();
                out.push(c);
                assert(out@ == o0.push(c));
                assert(out@.map_values(|s: String| s@) =~= o0.map_values(|s: String| s@).push(c@));
                assert(vs@.take(k + 1).map_values(|p: (String, VariantDef)| p.0@)
                    =~= vs@.take(k as int).map_values(|p: (String, VariantDef)| p.0@).push(vs@[k as int].0@));
                assert(out@.map_values(|s: String| s@) =~= vs@.take(k + 1).map_values(|p: (String, VariantDef)| p.0@));
                k = k + 1;
            }
            assert(vs@.take(vs@.len() as int) =~= vs@);
        },
        None => {
            assert(out@.map_values(|s: String| s@) =~= Seq::<Seq<char>>::empty());
        },
    }
    out
}

/// Reports a variant that the enum does not have (`KEI-E2003`).
pub fn unknown_variant(cx: &Cx, st: &mut FnState, e: &str, vname: &ast::Ident)
    requires
        st_ok(*cx, *old(st)),
    ensures
        st_ok(*cx, *final(st)),
        final(st).scopes == old(st).scopes,
        final(st).list_ops == old(st).list_ops,
        extends(old(st).diags@, final(st).diags@),
        final(st).diags@.len() == old(st).diags@.len() + 1,
        final(st).diags@.last().code@ == "KEI-E2003"@,
{
    let names = variant_names(cx.env, e);
    let fix = suggest_fix(&cx.env.file, vname.name.as_str(), &names, vname.span, cat3("Use one of the variants of '", e, "'"));
    err(cx, st, "KEI-E2003", cat5("no variant '", vname.name.as_str(), "' on enum '", e, "'"), vname.span, fix);
}

/// `Enum.Variant` written without a call: only a unit variant is a value;
/// a variant with a payload is reported (`KEI-E2003`) but still typed as
/// the enum.
pub fn variant_ref(cx: &Cx, st: &mut FnState, e: &String, vname: &ast::Ident) -> (r: Ty)
    requires
        st_ok(*cx, *old(st)),
    ensures
        st_ok(*cx, *final(st)),
        final(st).scopes == old(st).scopes,
        final(st).list_ops == old(st).list_ops,
        extends(old(st).diags@, final(st).diags@),
        r == (if variant_of(*cx.env, e@, vname.name@) is Some { Ty::Enum(*e) } else { Ty::Unknown }),
        (variant_of(*cx.env, e@, vname.name@) matches Some(VariantDef::Unit)) <==> final(st).diags@ == old(st).diags@,
{
    match find_variant(cx.env, e.as_str(), vname.name.as_str()) {
        Some(VariantDef::Unit) => Ty::Enum(e.clone()),
        Some(VariantDef::Tuple(_)) => {
            let v = vname.name.as_str();
            let mut m = cat5("variant '", v, "' of '", e.as_str(), "' carries a payload; construct it with '");
            push_str(&mut m, e.as_str());
            push_str(&mut m, ".");
            push_str(&mut m, v);
            push_str(&mut m, "(...)'");
            err(cx, st, "KEI-E2003", m, vname.span, direction(owned("Provide the payload arguments")));
            Ty::Enum(e.clone())
        },
        Some(VariantDef::Record(_)) => {
            let v = vname.name.as_str();
            let mut m = cat5("variant '", v, "' of '", e.as_str(), "' has named fields; construct it with '");
            push_str(&mut m, e.as_str());
            push_str(&mut m, ".");
            push_str(&mut m, v);
            push_str(&mut m, " { ... }'");
            err(cx, st, "KEI-E2003", m, vname.span, direction(owned("Provide the named fields")));
            Ty::Enum(e.clone())
        },
        None => {
            unknown_variant(cx, st, e.as_str(), vname);
            Ty::Unknown
        },
    }
}

} // verus!
