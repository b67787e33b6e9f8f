//! `match`: the shape a scrutinee type gives (`Option`, `Result`, a user
//! enum, unknown, or not matchable), the checking of one pattern against
//! it (the key it covers and the names it binds), and exhaustiveness.
use vstd::prelude::*;
use crate::ast;
use crate::checkenv::{dup_variants, extends, same_variant, same_variants, suggest_fix, Env, VariantDef};
use crate::contracts::direction;
use crate::fnstate::{err, st_ok, Cx, FnState};
use crate::names::enum_variants;
use crate::span;
use crate::table::{contains_str, find_key, has_key, keys_unique, spec_find, table_insert};
use crate::text::{cat2, cat3, cat5, owned, push_str, str_eq, u64_string};
use crate::types::Ty;

verus! {

broadcast use vstd::string::group_string_axioms;

/// What a scrutinee type offers to `match`.
pub enum MatchShape {
    /// `Option<T>` (the inner type).
    Option(Ty),
    /// `Result<T, E>`.
    Result(Ty, Ty),
    /// A user enum: its name and variants.
    Enum(String, Vec<(String, VariantDef)>),
    /// Not resolvable (an import, for instance): exhaustiveness is not checked.
    Unknown,
    /// A concrete type that cannot be matched (`Int`, `String`, ...).
    NonMatchable(Ty),
}

/// The shape of a scrutinee type; a tagged type has the shape of its
/// underlying type.
pub open spec fn spec_shape_kind(env: Env, t: Ty) -> int
    decreases t,
{
    match t {
        Ty::Option(_) => 0,
        Ty::Result(..) => 1,
        Ty::Enum(n) => if enum_variants(env, n@) is Some { 2 } else { 3 },
        Ty::Tagged { underlying, .. } => spec_shape_kind(env, *underlying),
        Ty::Unknown => 3,
        _ => 4,
    }
}

pub open spec fn shape_kind(s: MatchShape) -> int {
    match s {
        MatchShape::Option(_) => 0,
        MatchShape::Result(..) => 1,
        MatchShape::Enum(..) => 2,
        MatchShape::Unknown => 3,
        MatchShape::NonMatchable(_) => 4,
    }
}

/// The shape of a scrutinee type.
pub fn match_shape(env: &Env, t: &Ty) -> (r: MatchShape)
    ensures
        shape_kind(r) == spec_shape_kind(*env, *t),
        r matches MatchShape::Enum(_, vs) ==> vs@.len() >= 0,
    decreases t,
{
    match t {
        Ty::Option(x) => MatchShape::Option(x.duplicate()),
        Ty::Result(o, e) => MatchShape::Result(o.duplicate(), e.duplicate()),
        Ty::Enum(n) => match find_key(&env.enums, n.as_str()) {
            Some(i) => {
                proof {
                    assert(crate::table::has_key(env.enums@, n@));
                }
                MatchShape::Enum(n.clone(), dup_variants(&env.enums[i].1))
            },
            None => MatchShape::Unknown,
        },
        Ty::Tagged { underlying, .. } => match_shape(env, underlying),
        Ty::Unknown => MatchShape::Unknown,
        _ => MatchShape::NonMatchable(t.duplicate()),
    }
}

/// Binds `name` to `ty` in `out`; a name bound twice in one pattern is
/// reported (`KEI-E1003`).
fn insert_binding(cx: &Cx, st: &mut FnState, out: &mut Vec<(String, Ty)>, name: &ast::Ident, ty: Ty)
    requires
        st_ok(*cx, *old(st)),
        keys_unique(old(out)@),
    ensures
        st_ok(*cx, *final(st)),
        final(st).scopes == old(st).scopes,
        final(st).list_ops == old(st).list_ops,
        extends(old(st).diags@, final(st).diags@),
        keys_unique(final(out)@),
{
    if find_key(out, name.name.as_str()).is_some() {
        err(cx, st, "KEI-E1003", cat3("duplicate binding '", name.name.as_str(), "' in this pattern"), name.span,
            direction(owned("Rename one of the bound variables")));
    } else {
        table_insert(out, name.name.clone(), ty);
    }
}

/// The names a pattern binds, all `Unknown` (to keep checking the arm body
/// after a pattern error).
pub fn loose_bindings(pat: &ast::Pattern) -> (r: Vec<(String, Ty)>)
    ensures
        keys_unique(r@),
{
    let mut out: Vec<(String, Ty)> = Vec::new();
    match &pat.payload {
        ast::PatternPayload::Unit => {},
        ast::PatternPayload::Tuple { bindings } => {
            let mut i: usize = 0;
            while i < bindings.len()
                invariant
                    keys_unique(out@),
                    i <= bindings@.len(),
                decreases bindings@.len() - i,
            {
                table_insert(&mut out, bindings[i].name.clone(), Ty::Unknown);
                i = i + 1;
            }
        },
        ast::PatternPayload::Record { fields } => {
            let mut i: usize = 0;
            while i < fields.len()
                invariant
                    keys_unique(out@),
                    i <= fields@.len(),
                decreases fields@.len() - i,
            {
                table_insert(&mut out, fields[i].name.clone(), Ty::Unknown);
                i = i + 1;
            }
        },
    }
    out
}

/// Positional bindings (`Some(x)`, `E.V(a, b)`) typed by position; extra
/// bindings are `Unknown`.
fn bind_tuple(cx: &Cx, st: &mut FnState, bindings: &Vec<ast::Ident>, tys: &Vec<Ty>) -> (r: Vec<(String, Ty)>)
    requires
        st_ok(*cx, *old(st)),
    ensures
        st_ok(*cx, *final(st)),
        final(st).scopes == old(st).scopes,
        final(st).list_ops == old(st).list_ops,
        extends(old(st).diags@, final(st).diags@),
        keys_unique(r@),
{
    let mut out: Vec<(String, Ty)> = Vec::new();
    let mut i: usize = 0;
    while i < bindings.len()
        invariant
            st_ok(*cx, *st),
            st.scopes == old(st).scopes,
            st.list_ops == old(st).list_ops,
            extends(old(st).diags@, st.diags@),
            keys_unique(out@),
            i <= bindings@.len(),
        decreases bindings@.len() - i,
    {
        let ty = if i < tys.len() { tys[i].duplicate() } else { Ty::Unknown };
        insert_binding(cx, st, &mut out, &bindings[i], ty);
        i = i + 1;
    }
    out
}

/// Each name in single quotes.
pub open spec fn quoted_views(v: Seq<String>) -> Seq<Seq<char>> {
    v.map_values(|s: String| "'"@ + s@ + "'"@)
}

fn quoted_list(names: &Vec<String>) -> (r: String)
    ensures
        r@ == crate::text::joined_with(quoted_views(names@), ", "@),
{
    let mut s = String::new();
    let mut i: usize = 0;
    while i < names.len()
        invariant
            i <= names@.len(),
            s@ == crate::text::joined_with(quoted_views(names@).take(i as int), ", "@),
        decreases names@.len() - i,
    {
        proof {
            assert(quoted_views(names@).take(i + 1) =~= quoted_views(names@).take(i as int).push("'"@ + names@[i as int]@ + "'"@));
            crate::text::lemma_joined_push(quoted_views(names@).take(i as int), "'"@ + names@[i as int]@ + "'"@, ", "@);
        }
        if i > 0 {
            push_str(&mut s, ", ");
        }
        push_str(&mut s, "'");
        push_str(&mut s, names[i].as_str());
        push_str(&mut s, "'");
        i = i + 1;
    }
    proof { assert(quoted_views(names@).take(names@.len() as int) =~= quoted_views(names@)); }
    s
}

/// Named bindings (`E.V { a, b }`): every field must be listed.
fn bind_record(cx: &Cx, st: &mut FnState, pat_fields: &Vec<ast::Ident>, def_fields: &Vec<(String, Ty)>, e: &str, v: &str, pspan: span::Span)
    -> (r: Vec<(String, Ty)>)
    requires
        st_ok(*cx, *old(st)),
    ensures
        st_ok(*cx, *final(st)),
        final(st).scopes == old(st).scopes,
        final(st).list_ops == old(st).list_ops,
        extends(old(st).diags@, final(st).diags@),
        keys_unique(r@),
{
    let mut out: Vec<(String, Ty)> = Vec::new();
    let mut listed: Vec<String> = Vec::new();
    let mut i: usize = 0;
    while i < pat_fields.len()
        invariant
            st_ok(*cx, *st),
            st.scopes == old(st).scopes,
            st.list_ops == old(st).list_ops,
            extends(old(st).diags@, st.diags@),
            keys_unique(out@),
            i <= pat_fields@.len(),
        decreases pat_fields@.len() - i,
    {
        let f = &pat_fields[i];
        listed.push(f.name.clone());
        match find_key(def_fields, f.name.as_str()) {
            Some(j) => insert_binding(cx, st, &mut out, f, def_fields[j].1.duplicate()),
            None => {
                let mut names: Vec<String> = Vec::new();
                let mut k: usize = 0;
                while k < def_fields.len()
                    invariant
                        k <= def_fields@.len(),
                    decreases def_fields@.len() - k,
                {
                    names.push(def_fields[k].0.clone());
                    k = k + 1;
                }
                let mut fallback = cat5("Use one of the fields of '", e, ".", v, "'");
                let fix = suggest_fix(&cx.env.file, f.name.as_str(), &names, f.span, fallback);
                let mut m = cat5("no field '", f.name.as_str(), "' on '", e, ".");
                push_str(&mut m, v);
                push_str(&mut m, "'");
                err(cx, st, "KEI-E2009", m, f.span, fix);
            },
        }
        i = i + 1;
    }
    let mut missing: Vec<String> = Vec::new();
    let mut k: usize = 0;
    while k < def_fields.len()
        invariant
            k <= def_fields@.len(),
        decreases def_fields@.len() - k,
    {
        if !contains_str(&listed, def_fields[k].0.as_str()) {
            missing.push(def_fields[k].0.clone());
        }
        k = k + 1;
    }
    if missing.len() > 0 {
        let mut m = cat5("match pattern for '", e, ".", v, "' must bind all field(s); missing ");
        push_str(&mut m, quoted_list(&missing).as_str());
        err(cx, st, "KEI-E2009", m, pspan, direction(owned("Bind every field of the variant")));
    }
    out
}

/// The bindings of a built-in constructor pattern (`Some`, `Ok`, `Err`):
/// one positional binding is required (`KEI-E2009` otherwise).
fn bind_ctor_payload(cx: &Cx, st: &mut FnState, pat: &ast::Pattern, name: &str, tys: &Vec<Ty>) -> (r: Vec<(String, Ty)>)
    requires
        st_ok(*cx, *old(st)),
    ensures
        st_ok(*cx, *final(st)),
        final(st).scopes == old(st).scopes,
        final(st).list_ops == old(st).list_ops,
        extends(old(st).diags@, final(st).diags@),
        keys_unique(r@),
{
    match &pat.payload {
        ast::PatternPayload::Tuple { bindings } => {
            if bindings.len() != tys.len() {
                let mut m = cat3("'", name, "' binds exactly ");
                push_str(&mut m, u64_string(tys.len() as u64).as_str());
                push_str(&mut m, " value(s), found ");
                push_str(&mut m, u64_string(bindings.len() as u64).as_str());
                err(cx, st, "KEI-E2009", m, pat.span, direction(cat3("Write '", name, "(x)'")));
            }
            bind_tuple(cx, st, bindings, tys)
        },
        _ => {
            let m = cat5("'", name, "' binds its payload; write '", name, "(x)'");
            err(cx, st, "KEI-E2009", m, pat.span, direction(cat3("Write '", name, "(x)'")));
            loose_bindings(pat)
        },
    }
}

/// The constructor path of a pattern, joined with `.`.
fn pattern_head(pat: &ast::Pattern) -> (r: String) {
    crate::checkenv::dotted(&pat.path)
}

/// Reports a pattern that does not fit the scrutinee (`KEI-E2009`).
fn bad_pattern(cx: &Cx, st: &mut FnState, pat: &ast::Pattern, expected: &str)
    requires
        st_ok(*cx, *old(st)),
    ensures
        st_ok(*cx, *final(st)),
        final(st).scopes == old(st).scopes,
        final(st).list_ops == old(st).list_ops,
        extends(old(st).diags@, final(st).diags@),
        final(st).diags@.len() == old(st).diags@.len() + 1,
{
    let head = pattern_head(pat);
    let mut m = cat3("pattern '", head.as_str(), "' does not match the scrutinee; expected '");
    push_str(&mut m, expected);
    push_str(&mut m, "'");
    err(cx, st, "KEI-E2009", m, pat.span, direction(cat3("Write a '", expected, "' pattern")));
}

/// Whether the pattern's path is exactly the one name `n`.
fn path_is(pat: &ast::Pattern, n: &str) -> (r: bool)
    ensures
        r == (pat.path@.len() == 1 && pat.path@[0].name@ == n@),
{
    pat.path.len() == 1 && str_eq(pat.path[0].name.as_str(), n)
}

/// Checks a pattern against the shape of the scrutinee: the key it covers
/// (for exhaustiveness; none when the pattern does not fit) and the names
/// it binds.
pub fn check_pattern(cx: &Cx, st: &mut FnState, pat: &ast::Pattern, shape: &MatchShape) -> (r: (Option<String>, Vec<(String, Ty)>))
    requires
        st_ok(*cx, *old(st)),
    ensures
        st_ok(*cx, *final(st)),
        final(st).scopes == old(st).scopes,
        final(st).list_ops == old(st).list_ops,
        extends(old(st).diags@, final(st).diags@),
        keys_unique(r.1@),
{
    match shape {
        MatchShape::Option(inner) => {
            if path_is(pat, "Some") {
                let mut tys: Vec<Ty> = Vec::new();
                tys.push(inner.duplicate());
                let b = bind_ctor_payload(cx, st, pat, "Some", &tys);
                (Some(owned("Some")), b)
            } else if path_is(pat, "None") {
                expect_unit_payload(cx, st, pat, "None");
                (Some(owned("None")), Vec::new())
            } else {
                bad_pattern(cx, st, pat, "Some(x)' or 'None");
                (None, loose_bindings(pat))
            }
        },
        MatchShape::Result(ok, errt) => {
            if path_is(pat, "Ok") {
                let mut tys: Vec<Ty> = Vec::new();
                tys.push(ok.duplicate());
                let b = bind_ctor_payload(cx, st, pat, "Ok", &tys);
                (Some(owned("Ok")), b)
            } else if path_is(pat, "Err") {
                let mut tys: Vec<Ty> = Vec::new();
                tys.push(errt.duplicate());
                let b = bind_ctor_payload(cx, st, pat, "Err", &tys);
                (Some(owned("Err")), b)
            } else {
                bad_pattern(cx, st, pat, "Ok(x)' or 'Err(e)");
                (None, loose_bindings(pat))
            }
        },
        MatchShape::Enum(name, variants) => check_enum_pattern(cx, st, pat, name.as_str(), variants),
        MatchShape::Unknown => (Some(pattern_head(pat)), loose_bindings(pat)),
        MatchShape::NonMatchable(_) => (None, loose_bindings(pat)),
    }
}

fn expect_unit_payload(cx: &Cx, st: &mut FnState, pat: &ast::Pattern, name: &str)
    requires
        st_ok(*cx, *old(st)),
    ensures
        st_ok(*cx, *final(st)),
        final(st).scopes == old(st).scopes,
        final(st).list_ops == old(st).list_ops,
        extends(old(st).diags@, final(st).diags@),
{
    match &pat.payload {
        ast::PatternPayload::Unit => {},
        _ => {
            err(cx, st, "KEI-E2009", cat5("'", name, "' takes no payload; write '", name, "'"), pat.span,
                direction(cat3("Write '", name, "'")));
        },
    }
}

fn check_enum_pattern(cx: &Cx, st: &mut FnState, pat: &ast::Pattern, e: &str, variants: &Vec<(String, VariantDef)>)
    -> (r: (Option<String>, Vec<(String, Ty)>))
    requires
        st_ok(*cx, *old(st)),
    ensures
        st_ok(*cx, *final(st)),
        final(st).scopes == old(st).scopes,
        final(st).list_ops == old(st).list_ops,
        extends(old(st).diags@, final(st).diags@),
        keys_unique(r.1@),
{
    if !(pat.path.len() == 2 && str_eq(pat.path[0].name.as_str(), e)) {
        let head = pattern_head(pat);
        let mut m = cat5("pattern '", head.as_str(), "' does not match scrutinee of type '", e, "'; use '");
        push_str(&mut m, e);
        push_str(&mut m, ".Variant'");
        err(cx, st, "KEI-E2009", m, pat.span, direction(cat3("Write a '", e, ".Variant' pattern")));
        return (None, loose_bindings(pat));
    }
    let v = pat.path[1].name.as_str();
    let Some(j) = find_key(variants, v) else {
        let mut names: Vec<String> = Vec::new();
        let mut k: usize = 0;
        while k < variants.len()
            invariant
                k <= variants@.len(),
            decreases variants@.len() - k,
        {
            names.push(variants[k].0.clone());
            k = k + 1;
        }
        let fix = suggest_fix(&cx.env.file, v, &names, pat.path[1].span, cat3("Use one of the variants of '", e, "'"));
        err(cx, st, "KEI-E2009", cat5("no variant '", v, "' on enum '", e, "'"), pat.span, fix);
        return (None, loose_bindings(pat));
    };
    let def = &variants[j].1;
    let bindings = match (def, &pat.payload) {
        (VariantDef::Unit, ast::PatternPayload::Unit) => Vec::new(),
        (VariantDef::Tuple(tys), ast::PatternPayload::Tuple { bindings }) => {
            if bindings.len() != tys.len() {
                let mut m = cat5("variant '", v, "' of '", e, "' binds ");
                push_str(&mut m, u64_string(tys.len() as u64).as_str());
                push_str(&mut m, " value(s), found ");
                push_str(&mut m, u64_string(bindings.len() as u64).as_str());
                err(cx, st, "KEI-E2009", m, pat.span, direction(owned("Match the number of bound values")));
            }
            bind_tuple(cx, st, bindings, tys)
        },
        (VariantDef::Record(fields), ast::PatternPayload::Record { fields: pat_fields }) => {
            bind_record(cx, st, pat_fields, fields, e, v, pat.span)
        },
        _ => {
            let want = match def {
                VariantDef::Unit => cat5("'", e, ".", v, "'"),
                VariantDef::Tuple(_) => cat5("'", e, ".", v, "(...)'"),
                VariantDef::Record(_) => cat5("'", e, ".", v, " { ... }'"),
            };
            let mut m = cat5("variant '", v, "' of '", e, "' must be matched as ");
            push_str(&mut m, want.as_str());
            err(cx, st, "KEI-E2009", m, pat.span, direction(cat2("Write the pattern as ", want.as_str())));
            loose_bindings(pat)
        },
    };
    (Some(owned(v)), bindings)
}

/// The keys a `match` on this shape must cover.
pub open spec fn required_keys(shape: MatchShape) -> Seq<Seq<char>> {
    match shape {
        MatchShape::Option(_) => seq!["Some"@, "None"@],
        MatchShape::Result(..) => seq!["Ok"@, "Err"@],
        MatchShape::Enum(_, vs) => vs@.map_values(|v: (String, VariantDef)| v.0@),
        _ => Seq::empty(),
    }
}

/// Whether some required key has no arm.
pub open spec fn has_missing(shape: MatchShape, seen: Seq<String>) -> bool {
    exists|i: int| 0 <= i < required_keys(shape).len() && key_absent(seen, #[trigger] required_keys(shape)[i])
}

/// Whether no seen key is `k`.
pub open spec fn key_absent(seen: Seq<String>, k: Seq<char>) -> bool {
    forall|j: int| 0 <= j < seen.len() ==> #[trigger] seen[j]@ != k
}

fn required_list(shape: &MatchShape) -> (r: Vec<String>)
    ensures
        r@.len() == required_keys(*shape).len(),
        forall|i: int| 0 <= i < r@.len() ==> (#[trigger] r@[i])@ == required_keys(*shape)[i],
{
    let mut r: Vec<String> = Vec::new();
    match shape {
        MatchShape::Option(_) => {
            r.push(owned("Some"));
            r.push(owned("None"));
        },
        MatchShape::Result(..) => {
            r.push(owned("Ok"));
            r.push(owned("Err"));
        },
        MatchShape::Enum(_, vs) => {
            let mut i: usize = 0;
            while i < vs.len()
                invariant
                    i <= vs@.len(),
                    r@.len() == i,
                    forall|k: int| 0 <= k < i ==> (#[trigger] r@[k])@ == vs@[k].0@,
                decreases vs@.len() - i,
            {
                r.push(vs[i].0.clone());
                i = i + 1;
            }
        },
        _ => {},
    }
    r
}

/// Reports the arms a `match` lacks (`KEI-E2007`): exactly when some key
/// the shape requires is not among the keys seen.
pub fn check_exhaustiveness(cx: &Cx, st: &mut FnState, shape: &MatchShape, seen: &Vec<String>, s: span::Span)
    requires
        st_ok(*cx, *old(st)),
    ensures
        st_ok(*cx, *final(st)),
        final(st).scopes == old(st).scopes,
        final(st).list_ops == old(st).list_ops,
        extends(old(st).diags@, final(st).diags@),
        has_missing(*shape, seen@) ==> final(st).diags@.len() == old(st).diags@.len() + 1
            && final(st).diags@.last().code@ == "KEI-E2007"@,
        !has_missing(*shape, seen@) ==> final(st).diags@ == old(st).diags@,
{
    let required = required_list(shape);
    let mut missing: Vec<String> = Vec::new();
    let mut i: usize = 0;
    while i < required.len()
        invariant
            i <= required@.len(),
            required@.len() == required_keys(*shape).len(),
            forall|k: int| 0 <= k < required@.len() ==> (#[trigger] required@[k])@ == required_keys(*shape)[k],
            (missing@.len() > 0) <==> exists|k: int| 0 <= k < i && key_absent(seen@, #[trigger] required_keys(*shape)[k]),
        decreases required@.len() - i,
    {
        if !contains_str(seen, required[i].as_str()) {
            missing.push(required[i].clone());
        }
        i = i + 1;
    }
    if missing.len() > 0 {
        let mut m = cat2("match is not exhaustive: missing arm(s) for ", quoted_list(&missing).as_str());
        let mut t = owned("Add an arm for each of: ");
        let mut k: usize = 0;
        while k < missing.len()
            invariant
                k <= missing@.len(),
            decreases missing@.len() - k,
        {
            if k > 0 {
                push_str(&mut t, ", ");
            }
            push_str(&mut t, missing[k].as_str());
            k = k + 1;
        }
        err(cx, st, "KEI-E2007", m, s, direction(t));
    }
}

} // verus!
