//! Building the module environment: imports, top-level names, type aliases
//! (in dependency order, cycles broken), records and enums, function and
//! extern signatures. The first definition of a name is the one that counts;
//! later ones are reported.
use vstd::prelude::*;
use crate::ast;
use crate::checkenv::{
    dotted, dup_fields, dup_tys, env_wf, extends, kind_of, report, suggest_fix, well_reported, Env, ExternSig, FuncSig,
    NameKind, VariantDef,
};
use crate::contracts::direction;
use crate::diagnostic::{Diagnostic, Severity};
use crate::effects::{is_known, standard_effects};
use crate::imports::{ModuleResolver, ResolvedModule, ResolvedTypeDef, ResolvedVariant};
use crate::span;
use crate::table::{contains_str, find_key, has_key, keys_unique, lemma_distinct_keys_bound, spec_find, table_insert, views_of};
use crate::text::{cat2, cat3, owned, push_str, u64_string};
use crate::types::Ty;

verus! {

broadcast use vstd::string::group_string_axioms;

/// The environment invariant while building: unique keys, the checked file,
/// and diagnostics that all offer a fix in that file.
pub open spec fn building(env: Env, file: Seq<char>, diags: Seq<Diagnostic>) -> bool {
    &&& env_wf(env)
    &&& env.file@ == file
    &&& well_reported(diags, file)
}

fn line_note(prefix: &str, name: &str, middle: &str, line: u32, suffix: &str) -> (r: String) {
    let mut m = cat3(prefix, name, middle);
    push_str(&mut m, u64_string(line as u64).as_str());
    push_str(&mut m, suffix);
    m
}

fn copy_ident(x: &ast::Ident) -> (r: ast::Ident)
    ensures
        r.name == x.name,
        r.span == x.span,
{
    ast::Ident { name: x.name.clone(), span: x.span }
}

/// A checker variant entry has the name and payload of the resolved one.
pub open spec fn same_entry(d: (String, VariantDef), rv: (String, ResolvedVariant)) -> bool {
    d.0@ == rv.0@ && same_payload(d.1, rv.1)
}

/// A checker variant carries what the resolved variant carries.
pub open spec fn same_payload(d: VariantDef, rv: ResolvedVariant) -> bool {
    match (d, rv) {
        (VariantDef::Unit, ResolvedVariant::Unit) => true,
        (VariantDef::Tuple(a), ResolvedVariant::Tuple(b)) => a@ == b@,
        (VariantDef::Record(a), ResolvedVariant::Record(b)) => a@ == b@,
        _ => false,
    }
}

fn to_variants(vs: &Vec<(String, ResolvedVariant)>) -> (r: Vec<(String, VariantDef)>)
    ensures
        r@.len() == vs@.len(),
        forall|i: int| 0 <= i < vs@.len() ==> #[trigger] same_entry(r@[i], vs@[i]),
{
    let mut out: Vec<(String, VariantDef)> = Vec::new();
    let mut i: usize = 0;
    while i < vs.len()
        invariant
            i <= vs@.len(),
            out@.len() == i,
            forall|j: int| 0 <= j < i ==> #[trigger] same_entry(out@[j], vs@[j]),
        decreases vs@.len() - i,
    {
        let def = match &vs[i].1 {
            ResolvedVariant::Unit => VariantDef::Unit,
            ResolvedVariant::Tuple(ts) => VariantDef::Tuple(dup_tys(ts)),
            ResolvedVariant::Record(fs) => VariantDef::Record(dup_fields(fs)),
        };
        let name = vs[i].0.clone();
        let ghost o0 = out@;
        out.push((name, def));
        proof {
            assert forall|j: int| 0 <= j < i + 1 implies #[trigger] same_entry(out@[j], vs@[j]) by {
                if j < i {
                    assert(out@[j] == o0[j]);
                }
            }
        }
        i = i + 1;
    }
    out
}

/// The kind an imported name takes: an opaque import, or the definition the
/// resolved module gives it (registered in `env`).
fn import_kind(env: &mut Env, name: &String, is_namespace: bool, resolved: &Option<ResolvedModule>) -> (k: NameKind)
    requires
        env_wf(*old(env)),
    ensures
        k != NameKind::Func,
        env_wf(*final(env)),
        final(env).file == old(env).file,
        final(env).kinds == old(env).kinds,
        final(env).funcs == old(env).funcs,
        final(env).externs == old(env).externs,
{
    if is_namespace {
        return NameKind::Import;
    }
    match resolved {
        None => NameKind::Import,
        Some(rm) => match find_key(&rm.type_defs, name.as_str()) {
            None => NameKind::Import,
            Some(j) => match &rm.type_defs[j].1 {
                ResolvedTypeDef::Record(fields) => {
                    table_insert(&mut env.records, name.clone(), dup_fields(fields));
                    NameKind::Record
                },
                ResolvedTypeDef::Enum(variants) => {
                    table_insert(&mut env.enums, name.clone(), to_variants(variants));
                    NameKind::Enum
                },
                ResolvedTypeDef::Alias(ty) => {
                    table_insert(&mut env.aliases, name.clone(), ty.duplicate());
                    NameKind::Alias
                },
            },
        },
    }
}

/// Registers the names brought in by imports. A name imported twice is
/// reported (`KEI-E1004`); with a resolver, an imported record, enum or
/// alias is registered with its definition, else it stays opaque.
#[verifier::spinoff_prover]
#[verifier::rlimit(60)]
fn register_imports<R: ModuleResolver>(
    module: &ast::Module,
    resolver: &R,
    env: &mut Env,
    first: &mut Vec<(String, span::Span)>,
    imported: &mut Vec<String>,
    diags: &mut Vec<Diagnostic>,
)
    requires
        building(*old(env), old(env).file@, old(diags)@),
        keys_unique(old(first)@),
        same_names(old(first)@, old(imported)@),
    ensures
        same_names(final(first)@, final(imported)@),
        module.imports@.len() == 0 ==> final(imported)@ == old(imported)@,
        building(*final(env), old(env).file@, final(diags)@),
        extends(old(diags)@, final(diags)@),
        keys_unique(final(first)@),
        final(env).funcs == old(env).funcs,
        final(env).externs == old(env).externs,
        (forall|n: Seq<char>| kind_of(*old(env), n) != Some(NameKind::Func))
            ==> (forall|n: Seq<char>| kind_of(*final(env), n) != Some(NameKind::Func)),
        forall|key: Seq<char>| has_key(old(first)@, key) ==> #[trigger] has_key(final(first)@, key),
        forall|m: int, q: int| 0 <= m < module.imports@.len() && 0 <= q < module.imports@[m].names@.len()
            ==> has_key(final(first)@, #[trigger] module.imports@[m].names@[q].name@),
{
    let ghost file = env.file@;
    let ghost no_func = forall|n: Seq<char>| kind_of(*old(env), n) != Some(NameKind::Func);
    let mut m: usize = 0;
    while m < module.imports.len()
        invariant
            building(*env, file, diags@),
            extends(old(diags)@, diags@),
            keys_unique(first@),
            env.funcs == old(env).funcs,
            env.externs == old(env).externs,
            m <= module.imports@.len(),
            no_func == forall|n: Seq<char>| kind_of(*old(env), n) != Some(NameKind::Func),
            no_func ==> forall|n: Seq<char>| kind_of(*env, n) != Some(NameKind::Func),
            forall|key: Seq<char>| has_key(old(first)@, key) ==> #[trigger] has_key(first@, key),
            forall|m2: int, q: int| 0 <= m2 < m && 0 <= q < module.imports@[m2].names@.len()
                ==> has_key(first@, #[trigger] module.imports@[m2].names@[q].name@),
            same_names(first@, imported@),
            module.imports@.len() == 0 ==> imported@ == old(imported)@,
        decreases module.imports@.len() - m,
    {
        let ghost first_m = first@;
        let imp = &module.imports[m];
        let mut path_strs: Vec<String> = Vec::new();
        let mut p: usize = 0;
        while p < imp.path.len()
            invariant
                p <= imp.path@.len(),
            decreases imp.path@.len() - p,
        {
            path_strs.push(imp.path[p].name.clone());
            p = p + 1;
        }
        let resolved = resolver.resolve(path_strs.as_slice());
        let is_namespace = imp.alias.is_some();
        let mut names: Vec<ast::Ident> = Vec::new();
        let mut q: usize = 0;
        while q < imp.names.len()
            invariant
                q <= imp.names@.len(),
                names@.len() == q,
                forall|j: int| 0 <= j < q ==> #[trigger] names@[j] == imp.names@[j],
            decreases imp.names@.len() - q,
        {
            names.push(copy_ident(&imp.names[q]));
            q = q + 1;
        }
        match &imp.alias {
            Some(a) => names.push(copy_ident(a)),
            None => {},
        }
        if names.len() == 0 && imp.path.len() > 0 {
            names.push(copy_ident(&imp.path[imp.path.len() - 1]));
        }
        assert(forall|j: int| 0 <= j < imp.names@.len() ==> #[trigger] names@[j] == imp.names@[j]);
        let mut k: usize = 0;
        while k < names.len()
            invariant
                names@.len() >= imp.names@.len(),
                forall|j: int| 0 <= j < imp.names@.len() ==> #[trigger] names@[j] == imp.names@[j],
                forall|key: Seq<char>| has_key(first_m, key) ==> #[trigger] has_key(first@, key),
                forall|j: int| 0 <= j < k ==> has_key(first@, #[trigger] names@[j].name@),
                same_names(first@, imported@),
                building(*env, file, diags@),
                extends(old(diags)@, diags@),
                keys_unique(first@),
                env.funcs == old(env).funcs,
                env.externs == old(env).externs,
                k <= names@.len(),
                no_func == forall|n: Seq<char>| kind_of(*old(env), n) != Some(NameKind::Func),
                no_func ==> forall|n: Seq<char>| kind_of(*env, n) != Some(NameKind::Func),
            decreases names@.len() - k,
        {
            let ident = &names[k];
            match find_key(first, ident.name.as_str()) {
                Some(j) => {
                    let msg = line_note("name '", ident.name.as_str(), "' is imported more than once (first introduced at line ",
                        first[j].1.start.line, ")");
                    report(diags, &env.file, Severity::Error, "KEI-E1004", msg, ident.span,
                        direction(owned("Remove or alias the duplicate import")));
                },
                None => {
                    let ghost env_pre = *env;
                    let kind = import_kind(env, &ident.name, is_namespace, &resolved);
                    let ghost k0 = env.kinds@;
                    let ghost env0 = *env;
                    table_insert(&mut env.kinds, ident.name.clone(), kind);
                    proof {
                        if no_func {
                            assert forall|n: Seq<char>| kind_of(*env, n) != Some(NameKind::Func) by {
                                if n == ident.name@ {
                                    crate::table::lemma_insert_same(k0, env.kinds@, ident.name@, kind);
                                } else {
                                    crate::table::lemma_insert_other(k0, env.kinds@, ident.name@, kind, n);
                                    assert(kind_of(env_pre, n) != Some(NameKind::Func));
                                    assert(env0.kinds == env_pre.kinds);
                                }
                            }
                        }
                    }
                    let ghost im0 = imported@;
                    let ghost fi0 = first@;
                    imported.push(ident.name.clone());
                    table_insert(first, ident.name.clone(), ident.span);
                    proof {
                        assert(views_of(imported@) =~= views_of(im0).push(ident.name@));
                        assert forall|x: Seq<char>| has_key(first@, x) <==> #[trigger] views_of(imported@).contains(x) by {
                            if x != ident.name@ {
                                assert(has_key(first@, x) <==> has_key(fi0, x));
                                assert(views_of(imported@).contains(x) <==> views_of(im0).contains(x)) by {
                                    if views_of(imported@).contains(x) {
                                        let w = choose|w: int| 0 <= w < views_of(imported@).len() && views_of(imported@)[w] == x;
                                        assert(views_of(im0)[w] == x);
                                    }
                                    if views_of(im0).contains(x) {
                                        let w = choose|w: int| 0 <= w < views_of(im0).len() && views_of(im0)[w] == x;
                                        assert(views_of(imported@)[w] == x);
                                    }
                                }
                            } else {
                                assert(views_of(imported@)[im0.len() as int] == x);
                            }
                        }
                    }
                },
            }
            k = k + 1;
        }
        proof {
            assert forall|q: int| 0 <= q < imp.names@.len() implies has_key(first@, #[trigger] imp.names@[q].name@) by {
                assert(names@[q] == imp.names@[q]);
            }
        }
        m = m + 1;
    }
}

/// Whether entry `k` of a `uses` clause names no standard effect.
pub open spec fn effect_unknown(uses: Seq<ast::EffectRef>, k: int) -> bool {
    0 <= k < uses.len() && !crate::effects::spec_is_known(crate::notation::path_text(uses[k].path@, uses[k].path@.len()))
}

/// Every unknown effect of a `uses` clause is reported (`KEI-E3002`) at the entry.
pub open spec fn unknown_effects_reported(uses: Seq<ast::EffectRef>, ds: Seq<Diagnostic>, file: Seq<char>) -> bool {
    forall|k: int| #[trigger] effect_unknown(uses, k) ==> has_error_at(ds, "KEI-E3002"@, file, uses[k].span)
}

/// Every unknown effect in the `uses` clause of a function item is reported.
pub open spec fn item_effects_reported(items: Seq<ast::Item>, ds: Seq<Diagnostic>, file: Seq<char>) -> bool {
    forall|w: int| 0 <= w < items.len() && (#[trigger] items[w]) is Func
        ==> unknown_effects_reported(items[w]->Func_0.uses@, ds, file)
}

/// Unknown effects reported in `ds` stay reported when diagnostics are appended.
pub proof fn lemma_effects_extends(uses: Seq<ast::EffectRef>, ds: Seq<Diagnostic>, ds2: Seq<Diagnostic>, file: Seq<char>)
    requires
        unknown_effects_reported(uses, ds, file),
        extends(ds, ds2),
    ensures
        unknown_effects_reported(uses, ds2, file),
{
    assert forall|k: int| #[trigger] effect_unknown(uses, k) implies has_error_at(ds2, "KEI-E3002"@, file, uses[k].span) by {
        lemma_has_error_extends(ds, ds2, "KEI-E3002"@, file, uses[k].span);
    }
}

/// Whether an item among the first `i` defines the name `x`.
pub open spec fn defined_before(items: Seq<ast::Item>, i: int, x: Seq<char>) -> bool {
    exists|j: int| 0 <= j < i && #[trigger] item_key(items[j]) == Some(x)
}

/// Every item that repeats the name of an earlier item, when no import
/// brings that name in, is reported as a duplicate (`KEI-E1003`) at its name.
pub open spec fn duplicates_reported(items: Seq<ast::Item>, imported: Seq<Seq<char>>, ds: Seq<Diagnostic>, file: Seq<char>) -> bool {
    forall|i: int| 0 <= i < items.len() ==> (#[trigger] item_ident(items[i]) matches Some(id) ==>
        (defined_before(items, i, id.name@) && !imported.contains(id.name@) ==> has_error_at(ds, "KEI-E1003"@, file, id.span)))
}

/// Whether an import names `x` in its braces.
pub open spec fn imports_name(imports: Seq<ast::Import>, x: Seq<char>) -> bool {
    exists|m: int, q: int| 0 <= m < imports.len() && 0 <= q < imports[m].names@.len()
        && #[trigger] imports[m].names@[q].name@ == x
}

/// The names registered first are exactly the imported ones.
pub open spec fn same_names(first: Seq<(String, span::Span)>, imported: Seq<String>) -> bool {
    forall|x: Seq<char>| has_key(first, x) <==> #[trigger] views_of(imported).contains(x)
}

/// Whether `ds` holds an error with `code` at the syntax span `s` of `file`.
pub open spec fn has_error_at(ds: Seq<Diagnostic>, code: Seq<char>, file: Seq<char>, s: span::Span) -> bool {
    exists|j: int| 0 <= j < ds.len() && (#[trigger] ds[j]).code@ == code && ds[j].severity == Severity::Error
        && crate::checkenv::placed(file, s, ds[j].span)
}

/// An error found stays found when diagnostics are appended.
pub proof fn lemma_has_error_extends(ds: Seq<Diagnostic>, ds2: Seq<Diagnostic>, code: Seq<char>, file: Seq<char>, s: span::Span)
    requires
        has_error_at(ds, code, file, s),
        extends(ds, ds2),
    ensures
        has_error_at(ds2, code, file, s),
{
    let j = choose|j: int| 0 <= j < ds.len() && (#[trigger] ds[j]).code@ == code && ds[j].severity == Severity::Error
        && crate::checkenv::placed(file, s, ds[j].span);
    assert(ds2[j] == ds[j]);
}

/// The identifier an item introduces (externs introduce none).
pub open spec fn item_ident(item: ast::Item) -> Option<ast::Ident> {
    match item_name(item) {
        Some((id, _)) => Some(id),
        None => None,
    }
}

/// The name an item introduces, with its kind (externs introduce none).
pub open spec fn item_name(item: ast::Item) -> Option<(ast::Ident, NameKind)> {
    match item {
        ast::Item::TypeAlias(a) => Some((a.name, NameKind::Alias)),
        ast::Item::Record(r) => Some((r.name, NameKind::Record)),
        ast::Item::Enum(e) => Some((e.name, NameKind::Enum)),
        ast::Item::Func(f) => Some((f.name, NameKind::Func)),
        ast::Item::Extern(_) => None,
    }
}

/// The name an item defines, if any.
pub open spec fn item_key(item: ast::Item) -> Option<Seq<char>> {
    match item_name(item) {
        Some((id, _)) => Some(id.name@),
        None => None,
    }
}

/// Whether `ident` is the first definition of its name.
pub open spec fn is_primary(first: Seq<(String, span::Span)>, ident: ast::Ident) -> bool {
    match spec_find(first, ident.name@) {
        Some(i) => first[i].1 == ident.span,
        None => false,
    }
}

fn primary(first: &Vec<(String, span::Span)>, ident: &ast::Ident) -> (r: bool)
    ensures
        r == is_primary(first@, *ident),
{
    match find_key(first, ident.name.as_str()) {
        Some(i) => {
            proof {
                let c = choose|w: int| 0 <= w < first@.len() && first@[w].0@ == ident.name@
                    && forall|j: int| 0 <= j < w ==> #[trigger] first@[j].0@ != ident.name@;
                if c < i as int {
                    assert(first@[c].0@ != ident.name@);
                } else if c > i as int {
                    assert(first@[i as int].0@ != ident.name@);
                }
            }
            first[i].1 == ident.span
        },
        None => false,
    }
}

/// Registers the names of the items. A name defined twice is reported
/// (`KEI-E1003`), or `KEI-E1004` when it clashes with an import.
fn register_items(
    module: &ast::Module,
    env: &mut Env,
    first: &mut Vec<(String, span::Span)>,
    imported: &Vec<String>,
    diags: &mut Vec<Diagnostic>,
)
    requires
        building(*old(env), old(env).file@, old(diags)@),
        keys_unique(old(first)@),
        forall|n: Seq<char>| kind_of(*old(env), n) != Some(NameKind::Func),
        forall|x: Seq<char>| views_of(imported@).contains(x) ==> #[trigger] has_key(old(first)@, x),
    ensures
        duplicates_reported(module.items@, views_of(imported@), final(diags)@, old(env).file@),
        forall|i: int| 0 <= i < module.items@.len() ==> (#[trigger] item_ident(module.items@[i]) matches Some(id) ==>
            (views_of(imported@).contains(id.name@) ==> has_error_at(final(diags)@, "KEI-E1004"@, old(env).file@, id.span))),
        building(*final(env), old(env).file@, final(diags)@),
        extends(old(diags)@, final(diags)@),
        keys_unique(final(first)@),
        final(env).funcs == old(env).funcs,
        final(env).externs == old(env).externs,
        final(env).records == old(env).records,
        final(env).enums == old(env).enums,
        final(env).aliases == old(env).aliases,
        forall|n: Seq<char>| kind_of(*final(env), n) == Some(NameKind::Func) ==>
            exists|w: int| 0 <= w < module.items@.len() && (#[trigger] module.items@[w]) is Func
                && module.items@[w]->Func_0.name.name@ == n && is_primary(final(first)@, module.items@[w]->Func_0.name),
        forall|key: Seq<char>| has_key(old(first)@, key) ==> #[trigger] has_key(final(first)@, key),
        forall|i: int| 0 <= i < module.items@.len() && (#[trigger] item_key(module.items@[i])) is Some
            ==> has_key(final(first)@, item_key(module.items@[i])->0),
{
    let ghost file = env.file@;
    let mut i: usize = 0;
    while i < module.items.len()
        invariant
            building(*env, file, diags@),
            extends(old(diags)@, diags@),
            keys_unique(first@),
            env.funcs == old(env).funcs,
            env.externs == old(env).externs,
            env.records == old(env).records,
            env.enums == old(env).enums,
            env.aliases == old(env).aliases,
            i <= module.items@.len(),
            forall|n: Seq<char>| kind_of(*env, n) == Some(NameKind::Func) ==>
                exists|w: int| 0 <= w < i && (#[trigger] module.items@[w]) is Func
                    && module.items@[w]->Func_0.name.name@ == n && is_primary(first@, module.items@[w]->Func_0.name),
            forall|key: Seq<char>| has_key(old(first)@, key) ==> #[trigger] has_key(first@, key),
            forall|j: int| 0 <= j < i && (#[trigger] item_key(module.items@[j])) is Some
                ==> has_key(first@, item_key(module.items@[j])->0),
            forall|j: int| 0 <= j < i ==> (#[trigger] item_ident(module.items@[j]) matches Some(id) ==>
                (views_of(imported@).contains(id.name@) ==> has_error_at(diags@, "KEI-E1004"@, file, id.span))),
            env.file@ == file,
            forall|x: Seq<char>| views_of(imported@).contains(x) ==> #[trigger] has_key(old(first)@, x),
            forall|j: int| 0 <= j < i ==> (#[trigger] item_ident(module.items@[j]) matches Some(id) ==>
                (defined_before(module.items@, j, id.name@) && !views_of(imported@).contains(id.name@)
                    ==> has_error_at(diags@, "KEI-E1003"@, file, id.span))),
        decreases module.items@.len() - i,
    {
        let ghost d_i = diags@;
        let ghost first_at_i = first@;
        let ghost named = item_name(module.items@[i as int]);
        let (ident, kind) = match &module.items[i] {
            ast::Item::TypeAlias(a) => (&a.name, NameKind::Alias),
            ast::Item::Record(r) => (&r.name, NameKind::Record),
            ast::Item::Enum(e) => (&e.name, NameKind::Enum),
            ast::Item::Func(f) => (&f.name, NameKind::Func),
            ast::Item::Extern(_) => {
                i = i + 1;
                continue;
            },
        };
        assert(named == Some((*ident, kind)));
        proof {
            crate::table::lemma_views_contains(imported@, ident.name@);
            if views_of(imported@).contains(ident.name@) {
                assert(has_key(old(first)@, ident.name@));
            }
        }
        match find_key(first, ident.name.as_str()) {
            Some(j) => {
                if contains_str(imported, ident.name.as_str()) {
                    report(diags, &env.file, Severity::Error, "KEI-E1004",
                        cat3("'", ident.name.as_str(), "' conflicts with an imported name"), ident.span,
                        direction(cat3("Rename '", ident.name.as_str(), "' or remove the import")));
                    proof {
                        assert(has_error_at(diags@, "KEI-E1004"@, file, ident.span)) by {
                            assert(diags@[diags@.len() - 1].code@ == "KEI-E1004"@);
                        }
                    }
                } else {
                    proof {
                        if views_of(imported@).contains(ident.name@) {
                            let w = choose|w: int| 0 <= w < views_of(imported@).len() && views_of(imported@)[w] == ident.name@;
                            assert(imported@[w]@ == ident.name@);
                        }
                    }
                    let msg = line_note("duplicate definition of '", ident.name.as_str(), "' (first defined at line ",
                        first[j].1.start.line, ")");
                    report(diags, &env.file, Severity::Error, "KEI-E1003", msg, ident.span,
                        direction(owned("Rename one of the definitions")));
                    proof {
                        assert(has_error_at(diags@, "KEI-E1003"@, file, ident.span)) by {
                            assert(diags@[diags@.len() - 1].code@ == "KEI-E1003"@);
                        }
                    }
                }
            },
            None => {
                let ghost k0 = env.kinds@;
                let ghost f0 = first@;
                let ghost env0 = *env;
                table_insert(&mut env.kinds, ident.name.clone(), kind);
                table_insert(first, ident.name.clone(), ident.span);
                proof {
                    assert(named == Some((*ident, kind)));
                    assert forall|n: Seq<char>| kind_of(*env, n) == Some(NameKind::Func) implies
                        exists|w: int| 0 <= w < i + 1 && (#[trigger] module.items@[w]) is Func
                            && module.items@[w]->Func_0.name.name@ == n && is_primary(first@, module.items@[w]->Func_0.name) by {
                        if n == ident.name@ {
                            crate::table::lemma_insert_same(k0, env.kinds@, ident.name@, kind);
                            crate::table::lemma_insert_same(f0, first@, ident.name@, ident.span);
                            assert(module.items@[i as int] is Func);
                        } else {
                            crate::table::lemma_insert_other(k0, env.kinds@, ident.name@, kind, n);
                            assert(kind_of(env0, n) == Some(NameKind::Func));
                            let w = choose|w: int| 0 <= w < i && (#[trigger] module.items@[w]) is Func
                                && module.items@[w]->Func_0.name.name@ == n && is_primary(f0, module.items@[w]->Func_0.name);
                            crate::table::lemma_insert_other(f0, first@, ident.name@, ident.span, n);
                            assert(is_primary(first@, module.items@[w]->Func_0.name));
                        }
                    }
                }
            },
        }
        proof {
            assert forall|j: int| 0 <= j < i + 1 implies (#[trigger] item_ident(module.items@[j]) matches Some(id) ==>
                (defined_before(module.items@, j, id.name@) && !views_of(imported@).contains(id.name@)
                    ==> has_error_at(diags@, "KEI-E1003"@, file, id.span))) by {
                if j < i {
                    if let Some(id) = item_ident(module.items@[j]) {
                        if defined_before(module.items@, j, id.name@) && !views_of(imported@).contains(id.name@) {
                            lemma_has_error_extends(d_i, diags@, "KEI-E1003"@, file, id.span);
                        }
                    }
                } else if let Some(id) = item_ident(module.items@[j]) {
                    if defined_before(module.items@, j, id.name@) {
                        let w = choose|w: int| 0 <= w < j && #[trigger] item_key(module.items@[w]) == Some(id.name@);
                        assert(has_key(first_at_i, id.name@));
                    }
                }
            }
            assert forall|j: int| 0 <= j < i + 1 implies (#[trigger] item_ident(module.items@[j]) matches Some(id) ==>
                (views_of(imported@).contains(id.name@) ==> has_error_at(diags@, "KEI-E1004"@, file, id.span))) by {
                if j < i {
                    if let Some(id) = item_ident(module.items@[j]) {
                        if views_of(imported@).contains(id.name@) {
                            lemma_has_error_extends(d_i, diags@, "KEI-E1004"@, file, id.span);
                        }
                    }
                }
            }
        }
        i = i + 1;
    }
}

/// A table from alias names to the index of their item.
pub open spec fn alias_table_wf(raw: Seq<(String, usize)>, items: Seq<ast::Item>) -> bool {
    &&& keys_unique(raw)
    &&& forall|i: int| 0 <= i < raw.len() ==> {
        &&& (#[trigger] raw[i]).1 < items.len()
        &&& items[raw[i].1 as int] is TypeAlias
    }
}

/// The aliases being resolved: distinct names of the table.
pub open spec fn visiting_wf(raw: Seq<(String, usize)>, visiting: Seq<String>) -> bool {
    &&& views_of(visiting).no_duplicates()
    &&& forall|i: int| 0 <= i < visiting.len() ==> has_key(raw, #[trigger] visiting[i]@)
}

proof fn lemma_visiting_bound(raw: Seq<(String, usize)>, visiting: Seq<String>)
    requires
        visiting_wf(raw, visiting),
    ensures
        visiting.len() <= raw.len(),
{
    let vis = views_of(visiting);
    assert forall|i: int| 0 <= i < vis.len() implies has_key(raw, #[trigger] vis[i]) by {
        assert(vis[i] == visiting[i]@);
    }
    lemma_distinct_keys_bound(vis, raw);
}

proof fn lemma_visiting_push(raw: Seq<(String, usize)>, before: Seq<String>, after: Seq<String>, name: String)
    requires
        visiting_wf(raw, before),
        after == before.push(name),
        has_key(raw, name@),
        forall|i: int| 0 <= i < before.len() ==> #[trigger] before[i]@ != name@,
    ensures
        visiting_wf(raw, after),
{
    let vis = views_of(after);
    assert forall|a: int, b: int| 0 <= a < b < vis.len() implies vis[a] != vis[b] by {
        if b == vis.len() - 1 {
            assert(vis[a] == before[a]@);
        } else {
            assert(views_of(before)[a] == vis[a] && views_of(before)[b] == vis[b]);
        }
    }
    assert forall|i: int| 0 <= i < after.len() implies has_key(raw, #[trigger] after[i]@) by {
        if i < before.len() {
            assert(after[i] == before[i]);
        }
    }
}

/// The alias names a type reference mentions, in order: its own name when
/// it is a declared alias, then those of its arguments.
pub open spec fn alias_deps(t: ast::Type, env: Env) -> Seq<Seq<char>>
    decreases t, 1nat,
{
    let own = if t.path@.len() == 1 && kind_of(env, t.path@[0].name@) == Some(NameKind::Alias) {
        seq![t.path@[0].name@]
    } else {
        Seq::empty()
    };
    own + args_alias_deps(t.args@, t.args@.len(), env)
}

pub open spec fn args_alias_deps(ts: Seq<ast::Type>, n: nat, env: Env) -> Seq<Seq<char>>
    decreases ts, n,
{
    if n == 0 || n > ts.len() {
        Seq::empty()
    } else {
        args_alias_deps(ts, (n - 1) as nat, env) + alias_deps(ts[n - 1], env)
    }
}

/// The alias names a type reference mentions, in order.
fn collect_alias_deps(t: &ast::Type, env: &Env, out: &mut Vec<String>)
    ensures
        views_of(final(out)@) == views_of(old(out)@) + alias_deps(*t, *env),
    decreases t,
{
    let ghost own = if t.path@.len() == 1 && kind_of(*env, t.path@[0].name@) == Some(NameKind::Alias) {
        seq![t.path@[0].name@]
    } else {
        Seq::<Seq<char>>::empty()
    };
    if t.path.len() == 1 && env.kind(t.path[0].name.as_str()) == Some(NameKind::Alias) {
        out.push(t.path[0].name.clone());
    }
    assert(views_of(out@) =~= views_of(old(out)@) + own);
    let ghost o1 = views_of(out@);
    let mut i: usize = 0;
    while i < t.args.len()
        invariant
            i <= t.args@.len(),
            views_of(out@) == o1 + args_alias_deps(t.args@, i as nat, *env),
        decreases t.args@.len() - i,
    {
        assert(decreases_to!(t.args@ => t.args@[i as int]));
        collect_alias_deps(&t.args[i], env, out);
        assert(args_alias_deps(t.args@, (i + 1) as nat, *env)
            == args_alias_deps(t.args@, i as nat, *env) + alias_deps(t.args@[i as int], *env));
        assert(views_of(out@) =~= o1 + args_alias_deps(t.args@, (i + 1) as nat, *env));
        i = i + 1;
    }
    assert(views_of(out@) =~= views_of(old(out)@) + alias_deps(*t, *env));
}

/// Resolves the alias `name` after the aliases it depends on. A cycle is
/// reported (`KEI-E1002`) where it closes and resolves to `Unknown`.
fn ensure_alias(
    name: &str,
    raw: &Vec<(String, usize)>,
    items: &Vec<ast::Item>,
    env: &mut Env,
    visiting: &mut Vec<String>,
    diags: &mut Vec<Diagnostic>,
)
    requires
        building(*old(env), old(env).file@, old(diags)@),
        alias_table_wf(raw@, items@),
        visiting_wf(raw@, old(visiting)@),
    ensures
        building(*final(env), old(env).file@, final(diags)@),
        extends(old(diags)@, final(diags)@),
        final(visiting)@ == old(visiting)@,
        final(env).kinds == old(env).kinds,
        final(env).records == old(env).records,
        final(env).enums == old(env).enums,
        final(env).funcs == old(env).funcs,
        final(env).externs == old(env).externs,
        has_key(raw@, name@) ==> has_key(final(env).aliases@, name@),
        forall|key: Seq<char>| has_key(old(env).aliases@, key) ==> #[trigger] has_key(final(env).aliases@, key),
    decreases raw@.len() - old(visiting)@.len(),
{
    proof { lemma_visiting_bound(raw@, visiting@); }
    if find_key(&env.aliases, name).is_some() {
        return;
    }
    let Some(k) = find_key(raw, name) else {
        return;
    };
    let idx = raw[k].1;
    let decl = match &items[idx] {
        ast::Item::TypeAlias(a) => a,
        _ => {
            return;
        },
    };
    if contains_str(visiting, name) {
        report(diags, &env.file, Severity::Error, "KEI-E1002", cat3("type alias cycle involving '", name, "'"), decl.name.span,
            direction(owned("Break the cycle by removing one of the aliases")));
        table_insert(&mut env.aliases, String::from_str(name), Ty::Unknown);
        return;
    }
    let ghost before = visiting@;
    let owned_name = String::from_str(name);
    visiting.push(owned_name);
    proof {
        lemma_visiting_push(raw@, before, visiting@, owned_name);
        lemma_visiting_bound(raw@, visiting@);
    }
    let mut deps: Vec<String> = Vec::new();
    collect_alias_deps(&decl.ty, env, &mut deps);
    let mut d: usize = 0;
    while d < deps.len()
        invariant
            building(*env, old(env).file@, diags@),
            extends(old(diags)@, diags@),
            alias_table_wf(raw@, items@),
            visiting@ == before.push(owned_name),
            before == old(visiting)@,
            visiting_wf(raw@, visiting@),
            visiting@.len() <= raw@.len(),
            env.kinds == old(env).kinds,
            env.records == old(env).records,
            env.enums == old(env).enums,
            env.funcs == old(env).funcs,
            env.externs == old(env).externs,
            forall|key: Seq<char>| has_key(old(env).aliases@, key) ==> #[trigger] has_key(env.aliases@, key),
            d <= deps@.len(),
        decreases deps@.len() - d,
    {
        ensure_alias(deps[d].as_str(), raw, items, env, visiting, diags);
        d = d + 1;
    }
    let underlying = env.resolve_ty(&decl.ty, diags);
    let ty = match &decl.tag {
        Some(_) => Ty::Tagged { name: String::from_str(name), underlying: Box::new(underlying) },
        None => underlying,
    };
    table_insert(&mut env.aliases, String::from_str(name), ty);
    visiting.pop();
    assert(visiting@ =~= before);
}

/// Resolves every (first-defined) type alias, in item order.
fn resolve_aliases(module: &ast::Module, env: &mut Env, first: &Vec<(String, span::Span)>, diags: &mut Vec<Diagnostic>)
    requires
        building(*old(env), old(env).file@, old(diags)@),
    ensures
        building(*final(env), old(env).file@, final(diags)@),
        extends(old(diags)@, final(diags)@),
        final(env).kinds == old(env).kinds,
        final(env).records == old(env).records,
        final(env).enums == old(env).enums,
        final(env).funcs == old(env).funcs,
        final(env).externs == old(env).externs,
        forall|i: int| 0 <= i < module.items@.len() && #[trigger] module.items@[i] is TypeAlias
            && is_primary(first@, module.items@[i]->TypeAlias_0.name)
            ==> has_key(final(env).aliases@, module.items@[i]->TypeAlias_0.name.name@),
{
    let items = &module.items;
    let mut raw: Vec<(String, usize)> = Vec::new();
    let mut names: Vec<String> = Vec::new();
    let mut i: usize = 0;
    while i < items.len()
        invariant
            i <= items@.len(),
            alias_table_wf(raw@, items@),
            forall|j: int| 0 <= j < i && #[trigger] items@[j] is TypeAlias && is_primary(first@, items@[j]->TypeAlias_0.name)
                ==> has_key(raw@, items@[j]->TypeAlias_0.name.name@),
            forall|m: int| 0 <= m < names@.len() ==> has_key(raw@, #[trigger] names@[m]@),
            forall|key: Seq<char>| has_key(raw@, key) ==> exists|m: int| 0 <= m < names@.len() && #[trigger] names@[m]@ == key,
        decreases items@.len() - i,
    {
        match &items[i] {
            ast::Item::TypeAlias(a) => {
                if primary(first, &a.name) {
                    let ghost r0 = raw@;
                    table_insert(&mut raw, a.name.name.clone(), i);
                    assert forall|k: int| 0 <= k < raw@.len() implies {
                        &&& (#[trigger] raw@[k]).1 < items@.len()
                        &&& items@[raw@[k].1 as int] is TypeAlias
                    } by {
                        if raw@[k].0@ != a.name.name@ {
                            assert(raw@[k] == r0[k]);
                        }
                    }
                    let ghost n0 = names@;
                    names.push(a.name.name.clone());
                    proof {
                        assert forall|key: Seq<char>| has_key(raw@, key) implies exists|m: int| 0 <= m < names@.len() && #[trigger] names@[m]@ == key by {
                            if key == a.name.name@ {
                                assert(names@[n0.len() as int]@ == key);
                            } else {
                                assert(has_key(r0, key));
                                let m = choose|m: int| 0 <= m < n0.len() && #[trigger] n0[m]@ == key;
                                assert(names@[m]@ == key);
                            }
                        }
                    }
                }
            },
            _ => {},
        }
        i = i + 1;
    }
    let mut n: usize = 0;
    while n < names.len()
        invariant
            building(*env, old(env).file@, diags@),
            extends(old(diags)@, diags@),
            alias_table_wf(raw@, items@),
            env.kinds == old(env).kinds,
            env.records == old(env).records,
            env.enums == old(env).enums,
            env.funcs == old(env).funcs,
            env.externs == old(env).externs,
            n <= names@.len(),
            forall|m: int| 0 <= m < n ==> has_key(env.aliases@, #[trigger] names@[m]@),
            forall|m: int| 0 <= m < names@.len() ==> has_key(raw@, #[trigger] names@[m]@),
            forall|key: Seq<char>| has_key(raw@, key) ==> exists|m: int| 0 <= m < names@.len() && #[trigger] names@[m]@ == key,
        decreases names@.len() - n,
    {
        let mut visiting: Vec<String> = Vec::new();
        proof { assert(views_of(visiting@) =~= Seq::<Seq<char>>::empty()); }
        ensure_alias(names[n].as_str(), &raw, items, env, &mut visiting, diags);
        n = n + 1;
    }
}

/// Resolves field types in order; a repeated field name is reported
/// (`KEI-E1003`) and skipped.
fn build_fields(env: &Env, fields: &Vec<ast::FieldDef>, what: &str, owner: &str, diags: &mut Vec<Diagnostic>) -> (r: Vec<(String, Ty)>)
    requires
        building(*env, env.file@, old(diags)@),
    ensures
        building(*env, env.file@, final(diags)@),
        extends(old(diags)@, final(diags)@),
        keys_unique(r@),
        crate::table::keys_of(r@) == crate::table::first_names(fields@.map_values(|x: ast::FieldDef| x.name.name@), fields@.len()),
{
    let mut out: Vec<(String, Ty)> = Vec::new();
    let mut i: usize = 0;
    while i < fields.len()
        invariant
            building(*env, env.file@, diags@),
            extends(old(diags)@, diags@),
            i <= fields@.len(),
            keys_unique(out@),
            crate::table::keys_of(out@) == crate::table::first_names(fields@.map_values(|x: ast::FieldDef| x.name.name@), i as nat),
        decreases fields@.len() - i,
    {
        let f = &fields[i];
        proof { crate::table::lemma_has_key_keys(out@, fields@[i as int].name.name@); }
        let ghost out0 = out@;
        if find_key(&out, f.name.name.as_str()).is_some() {
            let mut msg = cat3("duplicate field '", f.name.name.as_str(), "' in ");
            push_str(&mut msg, what);
            push_str(&mut msg, " '");
            push_str(&mut msg, owner);
            push_str(&mut msg, "'");
            report(diags, &env.file, Severity::Error, "KEI-E1003", msg, f.name.span,
                direction(owned("Rename or remove the duplicate field")));
        } else {
            let ty = env.resolve_ty(&f.ty, diags);
            out.push((f.name.name.clone(), ty));
            proof {
                assert(crate::table::keys_of(out@) =~= crate::table::keys_of(out0).push(fields@[i as int].name.name@));
                assert forall|a: int, b: int| 0 <= a < b < out@.len() implies #[trigger] out@[a].0@ != #[trigger] out@[b].0@ by {
                    assert(out@[a] == out0[a]);
                    assert(out0[a].0@ == out@[a].0@);
                    if b < out0.len() {
                        assert(out@[b] == out0[b]);
                        assert(out0[b].0@ == out@[b].0@);
                        assert(out0[a].0@ != out0[b].0@);
                    }
                }
            }
        }
        i = i + 1;
    }
    out
}

/// Builds the fields of (first-defined) records and the variants of
/// (first-defined) enums.
#[verifier::spinoff_prover]
#[verifier::rlimit(50)]
fn build_types(module: &ast::Module, env: &mut Env, first: &Vec<(String, span::Span)>, diags: &mut Vec<Diagnostic>)
    requires
        building(*old(env), old(env).file@, old(diags)@),
    ensures
        building(*final(env), old(env).file@, final(diags)@),
        extends(old(diags)@, final(diags)@),
        final(env).kinds == old(env).kinds,
        final(env).aliases == old(env).aliases,
        final(env).funcs == old(env).funcs,
        final(env).externs == old(env).externs,
        forall|key: Seq<char>| has_key(old(env).records@, key) ==> #[trigger] has_key(final(env).records@, key),
        forall|key: Seq<char>| has_key(old(env).enums@, key) ==> #[trigger] has_key(final(env).enums@, key),
        forall|i: int| 0 <= i < module.items@.len() && #[trigger] module.items@[i] is Record
            && is_primary(first@, module.items@[i]->Record_0.name)
            ==> has_key(final(env).records@, module.items@[i]->Record_0.name.name@),
        forall|i: int| 0 <= i < module.items@.len() && #[trigger] module.items@[i] is Enum
            && is_primary(first@, module.items@[i]->Enum_0.name)
            ==> has_key(final(env).enums@, module.items@[i]->Enum_0.name.name@),
{
    let mut i: usize = 0;
    while i < module.items.len()
        invariant
            building(*env, old(env).file@, diags@),
            extends(old(diags)@, diags@),
            env.kinds == old(env).kinds,
            env.aliases == old(env).aliases,
            env.funcs == old(env).funcs,
            env.externs == old(env).externs,
            i <= module.items@.len(),
            forall|key: Seq<char>| has_key(old(env).records@, key) ==> #[trigger] has_key(env.records@, key),
            forall|key: Seq<char>| has_key(old(env).enums@, key) ==> #[trigger] has_key(env.enums@, key),
            forall|j: int| 0 <= j < i && #[trigger] module.items@[j] is Record
                && is_primary(first@, module.items@[j]->Record_0.name)
                ==> has_key(env.records@, module.items@[j]->Record_0.name.name@),
            forall|j: int| 0 <= j < i && #[trigger] module.items@[j] is Enum
                && is_primary(first@, module.items@[j]->Enum_0.name)
                ==> has_key(env.enums@, module.items@[j]->Enum_0.name.name@),
        decreases module.items@.len() - i,
    {
        match &module.items[i] {
            ast::Item::Record(r) => {
                if primary(first, &r.name) {
                    let fields = build_fields(env, &r.fields, "record", r.name.name.as_str(), diags);
                    table_insert(&mut env.records, r.name.name.clone(), fields);
                }
            },
            ast::Item::Enum(e) => {
                if primary(first, &e.name) {
                    let mut variants: Vec<(String, VariantDef)> = Vec::new();
                    let ghost e0 = *env;
                    let mut v: usize = 0;
                    while v < e.variants.len()
                        invariant
                            building(*env, old(env).file@, diags@),
                            extends(old(diags)@, diags@),
                            env.kinds == old(env).kinds,
                            env.aliases == old(env).aliases,
                            env.funcs == old(env).funcs,
                            env.externs == old(env).externs,
                            *env == e0,
                            v <= e.variants@.len(),
                        decreases e.variants@.len() - v,
                    {
                        let var = &e.variants[v];
                        if find_key(&variants, var.name.name.as_str()).is_some() {
                            let mut msg = cat3("duplicate variant '", var.name.name.as_str(), "' in enum '");
                            push_str(&mut msg, e.name.name.as_str());
                            push_str(&mut msg, "'");
                            report(diags, &env.file, Severity::Error, "KEI-E1003", msg, var.name.span,
                                direction(owned("Rename or remove the duplicate variant")));
                        } else {
                            let def = match &var.payload {
                                ast::VariantPayload::Unit => VariantDef::Unit,
                                ast::VariantPayload::Tuple { types } => {
                                    let mut tys: Vec<Ty> = Vec::new();
                                    let mut j: usize = 0;
                                    while j < types.len()
                                        invariant
                                            building(*env, old(env).file@, diags@),
                                            extends(old(diags)@, diags@),
                                            j <= types@.len(),
                                        decreases types@.len() - j,
                                    {
                                        tys.push(env.resolve_ty(&types[j], diags));
                                        j = j + 1;
                                    }
                                    VariantDef::Tuple(tys)
                                },
                                ast::VariantPayload::Record { fields } => {
                                    VariantDef::Record(build_fields(env, fields, "variant", var.name.name.as_str(), diags))
                                },
                            };
                            variants.push((var.name.name.clone(), def));
                        }
                        v = v + 1;
                    }
                    table_insert(&mut env.enums, e.name.name.clone(), variants);
                }
            },
            _ => {},
        }
        i = i + 1;
    }
}

/// The known effects among the first `n` declared ones, by dotted path,
/// each once, in order of first mention.
pub open spec fn known_effects(uses: Seq<ast::EffectRef>, n: nat) -> Seq<Seq<char>>
    decreases n,
{
    if n == 0 || n > uses.len() {
        Seq::empty()
    } else {
        let prev = known_effects(uses, (n - 1) as nat);
        let p = crate::notation::path_text(uses[n - 1].path@, uses[n - 1].path@.len());
        if crate::effects::spec_is_known(p) && !prev.contains(p) { prev.push(p) } else { prev }
    }
}

/// The declared effects that name the standard hierarchy, each once; an
/// unknown effect is reported (`KEI-E3002`) with the closest standard one.
fn declared_effects(env: &Env, uses: &Vec<ast::EffectRef>, diags: &mut Vec<Diagnostic>) -> (r: Vec<String>)
    requires
        building(*env, env.file@, old(diags)@),
    ensures
        building(*env, env.file@, final(diags)@),
        extends(old(diags)@, final(diags)@),
        views_of(r@) == known_effects(uses@, uses@.len()),
        unknown_effects_reported(uses@, final(diags)@, env.file@),
{
    let standard = standard_effects();
    let mut declared: Vec<String> = Vec::new();
    let mut i: usize = 0;
    while i < uses.len()
        invariant
            building(*env, env.file@, diags@),
            extends(old(diags)@, diags@),
            i <= uses@.len(),
            views_of(declared@) == known_effects(uses@, i as nat),
            forall|k: int| #[trigger] effect_unknown(uses@, k) && k < i ==> has_error_at(diags@, "KEI-E3002"@, env.file@, uses@[k].span),
        decreases uses@.len() - i,
    {
        let ghost d_i = diags@;
        let u = &uses[i];
        let path = dotted(&u.path);
        if is_known(path.as_str()) {
            let ghost before = declared@;
            proof {
                assert(views_of(before).contains(path@) <==> exists|j: int| 0 <= j < before.len() && #[trigger] before[j]@ == path@) by {
                    if views_of(before).contains(path@) {
                        let j = choose|j: int| 0 <= j < views_of(before).len() && views_of(before)[j] == path@;
                        assert(before[j]@ == path@);
                    }
                    if exists|j: int| 0 <= j < before.len() && #[trigger] before[j]@ == path@ {
                        let j = choose|j: int| 0 <= j < before.len() && #[trigger] before[j]@ == path@;
                        assert(views_of(before)[j] == path@);
                    }
                }
            }
            if !contains_str(&declared, path.as_str()) {
                declared.push(path);
                proof { assert(views_of(declared@) =~= views_of(before).push(path@)); }
            }
        } else {
            let fix = suggest_fix(&env.file, path.as_str(), &standard, u.span,
                owned("Use a standard effect (IO, Network.*, File.*, Database.*, Clock, Random, Audit.Log)"));
            report(diags, &env.file, Severity::Error, "KEI-E3002", cat3("unknown effect '", path.as_str(), "'"), u.span, fix);
            proof {
                assert(has_error_at(diags@, "KEI-E3002"@, env.file@, u.span)) by {
                    assert(diags@[diags@.len() - 1].code@ == "KEI-E3002"@);
                }
            }
        }
        proof {
            assert forall|k: int| #[trigger] effect_unknown(uses@, k) && k < i + 1 implies has_error_at(diags@, "KEI-E3002"@, env.file@, uses@[k].span) by {
                if k < i {
                    lemma_has_error_extends(d_i, diags@, "KEI-E3002"@, env.file@, uses@[k].span);
                }
            }
        }
        i = i + 1;
    }
    declared
}

/// Whether parameter `k` is the first of its name (its type is resolved).
pub open spec fn param_type_checked(params: Seq<ast::Param>, k: int) -> bool {
    0 <= k < params.len() && !(exists|j: int| 0 <= j < k && params[j].name.name@ == params[k].name.name@)
}

/// The type of every parameter that is the first of its name is reported
/// when its head is undefined or has the wrong number of arguments.
pub open spec fn params_types_reported(env: Env, params: Seq<ast::Param>, ds: Seq<Diagnostic>) -> bool {
    forall|k: int| #[trigger] param_type_checked(params, k) ==>
        (Env::type_head_error(env, params[k].ty) matches Some(c) ==> has_error_at(ds, c, env.file@, params[k].ty.span))
}

/// Reported parameter types stay reported when diagnostics are appended.
pub proof fn lemma_params_types_extends(env: Env, params: Seq<ast::Param>, ds: Seq<Diagnostic>, ds2: Seq<Diagnostic>)
    requires
        params_types_reported(env, params, ds),
        extends(ds, ds2),
    ensures
        params_types_reported(env, params, ds2),
{
    assert forall|k: int| #[trigger] param_type_checked(params, k) implies
        (Env::type_head_error(env, params[k].ty) matches Some(c) ==> has_error_at(ds2, c, env.file@, params[k].ty.span)) by {
        if let Some(c) = Env::type_head_error(env, params[k].ty) {
            lemma_has_error_extends(ds, ds2, c, env.file@, params[k].ty.span);
        }
    }
}

/// The parameter types of every function item are reported as
/// [`params_types_reported`] says.
pub open spec fn item_params_reported(env: Env, items: Seq<ast::Item>, ds: Seq<Diagnostic>) -> bool {
    forall|w: int| 0 <= w < items.len() && (#[trigger] items[w]) is Func
        ==> params_types_reported(env, items[w]->Func_0.params@, ds)
}

/// Resolves parameters in order; a repeated parameter name is reported
/// (`KEI-E1003`) and skipped.
fn build_params(env: &Env, params: &Vec<ast::Param>, fname: &str, diags: &mut Vec<Diagnostic>) -> (r: Vec<(String, Ty)>)
    requires
        building(*env, env.file@, old(diags)@),
    ensures
        building(*env, env.file@, final(diags)@),
        extends(old(diags)@, final(diags)@),
        keys_unique(r@),
        crate::table::keys_of(r@) == crate::table::first_names(params@.map_values(|x: ast::Param| x.name.name@), params@.len()),
        params_types_reported(*env, params@, final(diags)@),
{
    let mut out: Vec<(String, Ty)> = Vec::new();
    let mut i: usize = 0;
    while i < params.len()
        invariant
            building(*env, env.file@, diags@),
            extends(old(diags)@, diags@),
            i <= params@.len(),
            keys_unique(out@),
            crate::table::keys_of(out@) == crate::table::first_names(params@.map_values(|x: ast::Param| x.name.name@), i as nat),
            params_types_reported(*env, params@.take(i as int), diags@),
        decreases params@.len() - i,
    {
        let ghost d_i = diags@;
        let p = &params[i];
        proof { crate::table::lemma_has_key_keys(out@, params@[i as int].name.name@); }
        let ghost out0 = out@;
        if find_key(&out, p.name.name.as_str()).is_some() {
            let mut msg = cat3("duplicate parameter '", p.name.name.as_str(), "' in '");
            push_str(&mut msg, fname);
            push_str(&mut msg, "'");
            report(diags, &env.file, Severity::Error, "KEI-E1003", msg, p.name.span,
                direction(owned("Rename or remove the duplicate parameter")));
        } else {
            let ty = env.resolve_ty(&p.ty, diags);
            out.push((p.name.name.clone(), ty));
            proof {
                assert(crate::table::keys_of(out@) =~= crate::table::keys_of(out0).push(params@[i as int].name.name@));
                assert forall|a: int, b: int| 0 <= a < b < out@.len() implies #[trigger] out@[a].0@ != #[trigger] out@[b].0@ by {
                    assert(out@[a] == out0[a]);
                    assert(out0[a].0@ == out@[a].0@);
                    if b < out0.len() {
                        assert(out@[b] == out0[b]);
                        assert(out0[b].0@ == out@[b].0@);
                        assert(out0[a].0@ != out0[b].0@);
                    }
                }
            }
        }
        proof {
            let names = params@.map_values(|x: ast::Param| x.name.name@);
            crate::table::lemma_first_names_contains(names, i as nat, names[i as int]);
            let pre = params@.take(i as int);
            let post = params@.take(i + 1);
            assert forall|k: int| #[trigger] param_type_checked(post, k) implies
                (Env::type_head_error(*env, post[k].ty) matches Some(c) ==> has_error_at(diags@, c, env.file@, post[k].ty.span)) by {
                if k < i {
                    assert(pre[k] == post[k]);
                    assert(param_type_checked(pre, k)) by {
                        if exists|j: int| 0 <= j < k && pre[j].name.name@ == pre[k].name.name@ {
                            let j = choose|j: int| 0 <= j < k && pre[j].name.name@ == pre[k].name.name@;
                            assert(post[j] == pre[j]);
                        }
                    }
                    if let Some(c) = Env::type_head_error(*env, post[k].ty) {
                        lemma_has_error_extends(d_i, diags@, c, env.file@, post[k].ty.span);
                    }
                } else {
                    assert(!(exists|j: int| 0 <= j < i && #[trigger] names[j] == names[i as int])) by {
                        if exists|j: int| 0 <= j < i && #[trigger] names[j] == names[i as int] {
                            let j = choose|j: int| 0 <= j < i && #[trigger] names[j] == names[i as int];
                            assert(post[j].name.name@ == post[k].name.name@);
                        }
                    }
                }
            }
        }
        i = i + 1;
    }
    assert(params@.take(params@.len() as int) =~= params@);
    out
}

/// The function signatures, one per item (`None` for items that are not
/// functions); the first definition of each name is registered for calls.
fn build_sigs(module: &ast::Module, env: &mut Env, first: &Vec<(String, span::Span)>, diags: &mut Vec<Diagnostic>) -> (sigs: Vec<Option<FuncSig>>)
    requires
        building(*old(env), old(env).file@, old(diags)@),
    ensures
        building(*final(env), old(env).file@, final(diags)@),
        extends(old(diags)@, final(diags)@),
        final(env).kinds == old(env).kinds,
        final(env).records == old(env).records,
        final(env).enums == old(env).enums,
        final(env).aliases == old(env).aliases,
        final(env).externs == old(env).externs,
        sigs@.len() == module.items@.len(),
        forall|w: int| 0 <= w < module.items@.len() ==> ((#[trigger] sigs@[w]) is Some <==> module.items@[w] is Func),
        forall|w: int| 0 <= w < module.items@.len() && (#[trigger] module.items@[w]) is Func
            && is_primary(first@, module.items@[w]->Func_0.name) ==> has_key(final(env).funcs@, module.items@[w]->Func_0.name.name@),
        item_effects_reported(module.items@, final(diags)@, old(env).file@),
        item_params_reported(*old(env), module.items@, final(diags)@),
{
    let mut sigs: Vec<Option<FuncSig>> = Vec::new();
    let mut i: usize = 0;
    while i < module.items.len()
        invariant
            building(*env, old(env).file@, diags@),
            extends(old(diags)@, diags@),
            env.kinds == old(env).kinds,
            env.records == old(env).records,
            env.enums == old(env).enums,
            env.aliases == old(env).aliases,
            env.externs == old(env).externs,
            i <= module.items@.len(),
            sigs@.len() == i,
            forall|w: int| 0 <= w < i ==> ((#[trigger] sigs@[w]) is Some <==> module.items@[w] is Func),
            forall|w: int| 0 <= w < i && (#[trigger] module.items@[w]) is Func
                && is_primary(first@, module.items@[w]->Func_0.name) ==> has_key(env.funcs@, module.items@[w]->Func_0.name.name@),
            forall|w: int| 0 <= w < i && (#[trigger] module.items@[w]) is Func
                ==> unknown_effects_reported(module.items@[w]->Func_0.uses@, diags@, old(env).file@),
            forall|w: int| 0 <= w < i && (#[trigger] module.items@[w]) is Func
                ==> params_types_reported(*old(env), module.items@[w]->Func_0.params@, diags@),
            env.file == old(env).file,
        decreases module.items@.len() - i,
    {
        let ghost d_i = diags@;
        match &module.items[i] {
            ast::Item::Func(f) => {
                let params = build_params(env, &f.params, f.name.name.as_str(), diags);
                let ghost d_p = diags@;
                let ret = match &f.ret {
                    Some(t) => env.resolve_ty(t, diags),
                    None => Ty::Unit,
                };
                let effects = declared_effects(env, &f.uses, diags);
                let uses_end = if f.uses.len() > 0 { Some(f.uses[f.uses.len() - 1].span.end) } else { None };
                let sig = FuncSig { params, ret, effects, uses_end };
                if primary(first, &f.name) {
                    let ghost f0 = env.funcs@;
                    table_insert(&mut env.funcs, f.name.name.clone(), sig.duplicate());
                    assert forall|w: int| 0 <= w < i + 1 && (#[trigger] module.items@[w]) is Func
                        && is_primary(first@, module.items@[w]->Func_0.name) implies has_key(env.funcs@, module.items@[w]->Func_0.name.name@) by {
                        if w < i && module.items@[w]->Func_0.name.name@ != f.name.name@ {
                            assert(has_key(f0, module.items@[w]->Func_0.name.name@));
                        }
                    }
                }
                sigs.push(Some(sig));
                proof {
                    lemma_params_types_extends(*old(env), f.params@, d_p, diags@);
                }
            },
            _ => {
                sigs.push(None);
            },
        }
        proof {
            assert forall|w: int| 0 <= w < i + 1 && (#[trigger] module.items@[w]) is Func
                implies unknown_effects_reported(module.items@[w]->Func_0.uses@, diags@, old(env).file@) by {
                if w < i {
                    lemma_effects_extends(module.items@[w]->Func_0.uses@, d_i, diags@, old(env).file@);
                }
            }
            assert forall|w: int| 0 <= w < i + 1 && (#[trigger] module.items@[w]) is Func
                implies params_types_reported(*old(env), module.items@[w]->Func_0.params@, diags@) by {
                if w < i {
                    lemma_params_types_extends(*old(env), module.items@[w]->Func_0.params@, d_i, diags@);
                }
            }
        }
        i = i + 1;
    }
    sigs
}

/// The dotted path an extern item is registered under.
pub open spec fn extern_key(item: ast::Item) -> Seq<char> {
    match item {
        ast::Item::Extern(e) => crate::notation::path_text(e.path@, e.path@.len()),
        _ => Seq::empty(),
    }
}

/// Whether an extern item before position `i` has the same path as the
/// item at `i`.
pub open spec fn extern_earlier(items: Seq<ast::Item>, i: int) -> bool {
    exists|j: int| 0 <= j < i && (#[trigger] items[j]) is Extern && extern_key(items[j]) == extern_key(items[i])
}

/// The extern errors of `items`, given the paths `known` registered before
/// them: a repeated path is `KEI-E3003`; otherwise a `query` that declares
/// effects is `KEI-E3005`; each at the declaration.
pub open spec fn externs_reported(items: Seq<ast::Item>, known: Seq<(String, ExternSig)>, ds: Seq<Diagnostic>, file: Seq<char>) -> bool {
    forall|i: int| 0 <= i < items.len() && (#[trigger] items[i]) is Extern ==> {
        let e = items[i]->Extern_0;
        let dup = extern_earlier(items, i) || has_key(known, extern_key(items[i]));
        &&& dup ==> has_error_at(ds, "KEI-E3003"@, file, e.span)
        &&& !dup && e.query && e.uses@.len() > 0 ==> has_error_at(ds, "KEI-E3005"@, file, e.span)
    }
}

/// Registers the extern signatures: a repeated path is reported
/// (`KEI-E3003`), and so is a `query` that declares effects (`KEI-E3005`).
fn build_externs(module: &ast::Module, env: &mut Env, diags: &mut Vec<Diagnostic>)
    requires
        building(*old(env), old(env).file@, old(diags)@),
    ensures
        building(*final(env), old(env).file@, final(diags)@),
        extends(old(diags)@, final(diags)@),
        final(env).kinds == old(env).kinds,
        final(env).records == old(env).records,
        final(env).enums == old(env).enums,
        final(env).aliases == old(env).aliases,
        final(env).funcs == old(env).funcs,
        forall|key: Seq<char>| has_key(old(env).externs@, key) ==> #[trigger] has_key(final(env).externs@, key),
        forall|i: int| 0 <= i < module.items@.len() && #[trigger] module.items@[i] is Extern ==>
            has_key(final(env).externs@, extern_key(module.items@[i])),
        externs_reported(module.items@, old(env).externs@, final(diags)@, old(env).file@),
{
    let mut i: usize = 0;
    while i < module.items.len()
        invariant
            building(*env, old(env).file@, diags@),
            extends(old(diags)@, diags@),
            env.kinds == old(env).kinds,
            env.records == old(env).records,
            env.enums == old(env).enums,
            env.aliases == old(env).aliases,
            env.funcs == old(env).funcs,
            i <= module.items@.len(),
            forall|key: Seq<char>| has_key(old(env).externs@, key) ==> #[trigger] has_key(env.externs@, key),
            forall|j: int| 0 <= j < i && #[trigger] module.items@[j] is Extern ==>
                has_key(env.externs@, extern_key(module.items@[j])),
            forall|key: Seq<char>| #[trigger] has_key(env.externs@, key) ==> has_key(old(env).externs@, key)
                || exists|j: int| 0 <= j < i && (#[trigger] module.items@[j]) is Extern && extern_key(module.items@[j]) == key,
            env.file == old(env).file,
            externs_reported(module.items@.take(i as int), old(env).externs@, diags@, old(env).file@),
        decreases module.items@.len() - i,
    {
        let ghost d_i = diags@;
        let ghost x_i = env.externs@;
        match &module.items[i] {
            ast::Item::Extern(e) => {
                let key = dotted(&e.path);
                proof {
                    assert(key@ == extern_key(module.items@[i as int]));
                    if extern_earlier(module.items@, i as int) {
                        let w = choose|w: int| 0 <= w < i && (#[trigger] module.items@[w]) is Extern
                            && extern_key(module.items@[w]) == extern_key(module.items@[i as int]);
                        assert(has_key(env.externs@, extern_key(module.items@[w])));
                    }
                }
                if find_key(&env.externs, key.as_str()).is_some() {
                    report(diags, &env.file, Severity::Error, "KEI-E3003", cat3("duplicate extern signature for '", key.as_str(), "'"),
                        e.span, direction(cat3("Remove the duplicate extern for '", key.as_str(), "'")));
                    proof {
                        assert(has_key(x_i, key@));
                        assert(extern_earlier(module.items@, i as int) || has_key(old(env).externs@, key@)) by {
                            if !has_key(old(env).externs@, key@) {
                                let w = choose|w: int| 0 <= w < i && (#[trigger] module.items@[w]) is Extern && extern_key(module.items@[w]) == key@;
                                assert(extern_key(module.items@[w]) == extern_key(module.items@[i as int]));
                            }
                        }
                        assert(has_error_at(diags@, "KEI-E3003"@, old(env).file@, e.span)) by {
                            assert(diags@[diags@.len() - 1].code@ == "KEI-E3003"@);
                        }
                    }
                } else {
                    let mut params: Vec<(String, Ty)> = Vec::new();
                    let mut p: usize = 0;
                    while p < e.params.len()
                        invariant
                            building(*env, old(env).file@, diags@),
                            extends(old(diags)@, diags@),
                            extends(d_i, diags@),
                            p <= e.params@.len(),
                        decreases e.params@.len() - p,
                    {
                        let ty = env.resolve_ty(&e.params[p].ty, diags);
                        params.push((e.params[p].name.name.clone(), ty));
                        p = p + 1;
                    }
                    let ret = match &e.ret {
                        Some(t) => env.resolve_ty(t, diags),
                        None => Ty::Unit,
                    };
                    if e.query && e.uses.len() > 0 {
                        report(diags, &env.file, Severity::Error, "KEI-E3005",
                            cat3("query observer '", key.as_str(), "' must be pure; a 'query' extern cannot declare 'uses'"), e.span,
                            direction(owned("Remove 'uses' from the query, or drop 'query' if it has effects")));
                        proof {
                            assert(has_error_at(diags@, "KEI-E3005"@, old(env).file@, e.span)) by {
                                assert(diags@[diags@.len() - 1].code@ == "KEI-E3005"@);
                            }
                        }
                    }
                    let ghost d_q = diags@;
                    let effects = declared_effects(env, &e.uses, diags);
                    proof {
                        if e.query && e.uses@.len() > 0 {
                            lemma_has_error_extends(d_q, diags@, "KEI-E3005"@, old(env).file@, e.span);
                        }
                    }
                    let ghost key_v = key@;
                    table_insert(&mut env.externs, key, ExternSig { query: e.query, params, ret, effects });
                    proof {
                        assert forall|k2: Seq<char>| #[trigger] has_key(env.externs@, k2) implies has_key(old(env).externs@, k2)
                            || exists|j: int| 0 <= j < i + 1 && (#[trigger] module.items@[j]) is Extern && extern_key(module.items@[j]) == k2 by {
                            if k2 == key_v {
                                assert(module.items@[i as int] is Extern && extern_key(module.items@[i as int]) == k2);
                            } else {
                                assert(has_key(x_i, k2));
                            }
                        }
                    }
                }
            },
            _ => {},
        }
        assert(extends(d_i, diags@)) by {
            assert forall|k: int| 0 <= k < d_i.len() implies #[trigger] diags@[k] == d_i[k] by {}
        }
        proof {
            let its = module.items@;
            let pre = its.take(i as int);
            let post = its.take(i + 1);
            assert forall|j: int| 0 <= j < post.len() && (#[trigger] post[j]) is Extern implies {
                let e = post[j]->Extern_0;
                let dup = extern_earlier(post, j) || has_key(old(env).externs@, extern_key(post[j]));
                &&& dup ==> has_error_at(diags@, "KEI-E3003"@, old(env).file@, e.span)
                &&& !dup && e.query && e.uses@.len() > 0 ==> has_error_at(diags@, "KEI-E3005"@, old(env).file@, e.span)
            } by {
                assert(extern_earlier(post, j) == extern_earlier(its, j)) by {
                    if extern_earlier(post, j) {
                        let w = choose|w: int| 0 <= w < j && (#[trigger] post[w]) is Extern && extern_key(post[w]) == extern_key(post[j]);
                        assert(its[w] == post[w]);
                    }
                    if extern_earlier(its, j) {
                        let w = choose|w: int| 0 <= w < j && (#[trigger] its[w]) is Extern && extern_key(its[w]) == extern_key(its[j]);
                        assert(its[w] == post[w]);
                    }
                }
                if j < i {
                    assert(pre[j] == post[j]);
                    assert(extern_earlier(pre, j) == extern_earlier(its, j)) by {
                        if extern_earlier(pre, j) {
                            let w = choose|w: int| 0 <= w < j && (#[trigger] pre[w]) is Extern && extern_key(pre[w]) == extern_key(pre[j]);
                            assert(its[w] == pre[w]);
                        }
                        if extern_earlier(its, j) {
                            let w = choose|w: int| 0 <= w < j && (#[trigger] its[w]) is Extern && extern_key(its[w]) == extern_key(its[j]);
                            assert(its[w] == pre[w]);
                        }
                    }
                    let e = post[j]->Extern_0;
                    if extern_earlier(pre, j) || has_key(old(env).externs@, extern_key(pre[j])) {
                        lemma_has_error_extends(d_i, diags@, "KEI-E3003"@, old(env).file@, e.span);
                    } else if e.query && e.uses@.len() > 0 {
                        lemma_has_error_extends(d_i, diags@, "KEI-E3005"@, old(env).file@, e.span);
                    }
                }
            }
        }
        i = i + 1;
    }
    assert(module.items@.take(module.items@.len() as int) =~= module.items@);
}

/// Whether every name of function kind has a registered signature.
pub open spec fn funcs_registered(env: Env) -> bool {
    forall|n: Seq<char>| kind_of(env, n) == Some(NameKind::Func) ==> has_key(env.funcs@, n)
}

impl Env {
    /// Builds the environment of `module`, checked as `file`, and the
    /// signature of each function item (aligned with the items).
    pub fn build<R: ModuleResolver>(file: &str, module: &ast::Module, diags: &mut Vec<Diagnostic>, resolver: &R) -> (r: (Env, Vec<Option<FuncSig>>))
        requires
            well_reported(old(diags)@, file@),
        ensures
            building(r.0, file@, final(diags)@),
            extends(old(diags)@, final(diags)@),
            funcs_registered(r.0),
            r.1@.len() == module.items@.len(),
            forall|w: int| 0 <= w < module.items@.len() ==> ((#[trigger] r.1@[w]) is Some <==> module.items@[w] is Func),
            forall|i: int| 0 <= i < module.items@.len() ==> (#[trigger] item_ident(module.items@[i]) matches Some(id) ==>
                (imports_name(module.imports@, id.name@) ==> has_error_at(final(diags)@, "KEI-E1004"@, file@, id.span))),
            module.imports@.len() == 0 ==> duplicates_reported(module.items@, Seq::empty(), final(diags)@, file@),
            item_effects_reported(module.items@, final(diags)@, file@),
            externs_reported(module.items@, Seq::empty(), final(diags)@, file@),
            item_params_reported(r.0, module.items@, final(diags)@),
    {
        let mut env = Env {
            file: owned(file),
            kinds: Vec::new(),
            records: Vec::new(),
            enums: Vec::new(),
            aliases: Vec::new(),
            funcs: Vec::new(),
            externs: Vec::new(),
        };
        let mut first: Vec<(String, span::Span)> = Vec::new();
        let mut imported: Vec<String> = Vec::new();
        proof {
            assert forall|n: Seq<char>| kind_of(env, n) != Some(NameKind::Func) by {}
        }
        register_imports(module, resolver, &mut env, &mut first, &mut imported, diags);
        let ghost first_imports = first@;
        register_items(module, &mut env, &mut first, &imported, diags);
        let ghost d_items = diags@;
        let ghost named = env;
        resolve_aliases(module, &mut env, &first, diags);
        build_types(module, &mut env, &first, diags);
        let ghost mid = env;
        let sigs = build_sigs(module, &mut env, &first, diags);
        let ghost d_sigs = diags@;
        let ghost signed = env;
        assert(signed.externs@ =~= Seq::<(String, ExternSig)>::empty());
        build_externs(module, &mut env, diags);
        proof {
            assert forall|n: Seq<char>| kind_of(env, n) == Some(NameKind::Func) implies has_key(env.funcs@, n) by {
                assert(env.kinds == named.kinds);
                assert(kind_of(named, n) == Some(NameKind::Func));
                let w = choose|w: int| 0 <= w < module.items@.len() && (#[trigger] module.items@[w]) is Func
                    && module.items@[w]->Func_0.name.name@ == n && is_primary(first@, module.items@[w]->Func_0.name);
                assert(has_key(signed.funcs@, n));
            }
            assert forall|w: int| 0 <= w < module.items@.len() && (#[trigger] module.items@[w]) is Func
                implies params_types_reported(env, module.items@[w]->Func_0.params@, diags@) by {
                lemma_params_types_extends(mid, module.items@[w]->Func_0.params@, d_sigs, diags@);
            }
            assert forall|w: int| 0 <= w < module.items@.len() && (#[trigger] module.items@[w]) is Func
                implies unknown_effects_reported(module.items@[w]->Func_0.uses@, diags@, file@) by {
                lemma_effects_extends(module.items@[w]->Func_0.uses@, d_sigs, diags@, file@);
            }
            if module.imports@.len() == 0 {
                assert(views_of(imported@) =~= Seq::<Seq<char>>::empty());
                assert forall|i: int| 0 <= i < module.items@.len() implies (#[trigger] item_ident(module.items@[i]) matches Some(id) ==>
                    (defined_before(module.items@, i, id.name@) && !Seq::<Seq<char>>::empty().contains(id.name@)
                        ==> has_error_at(diags@, "KEI-E1003"@, file@, id.span))) by {
                    if let Some(id) = item_ident(module.items@[i]) {
                        if defined_before(module.items@, i, id.name@) {
                            assert(has_error_at(d_items, "KEI-E1003"@, file@, id.span));
                            lemma_has_error_extends(d_items, diags@, "KEI-E1003"@, file@, id.span);
                        }
                    }
                }
            }
            assert forall|i: int| 0 <= i < module.items@.len() implies (#[trigger] item_ident(module.items@[i]) matches Some(id) ==>
                (imports_name(module.imports@, id.name@) ==> has_error_at(diags@, "KEI-E1004"@, file@, id.span))) by {
                if let Some(id) = item_ident(module.items@[i]) {
                    if imports_name(module.imports@, id.name@) {
                        let (m, q) = choose|m: int, q: int| 0 <= m < module.imports@.len() && 0 <= q < module.imports@[m].names@.len()
                            && #[trigger] module.imports@[m].names@[q].name@ == id.name@;
                        assert(has_key(first_imports, module.imports@[m].names@[q].name@));
                        assert(views_of(imported@).contains(id.name@));
                        assert(has_error_at(d_items, "KEI-E1004"@, file@, id.span));
                        lemma_has_error_extends(d_items, diags@, "KEI-E1004"@, file@, id.span);
                    }
                }
            }
        }
        (env, sigs)
    }
}

} // verus!
