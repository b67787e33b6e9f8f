//! Type definitions across an import boundary: `import a.b { X }` can bring
//! the record, enum or alias `X` of another module into a check, when a
//! resolver finds that module. Without one (or when it finds nothing) the
//! imported name stays opaque.
use vstd::prelude::*;
use crate::ast;
use crate::checkenv::{dup_fields, dup_tys};
use crate::table::{contains_str, find_key, has_key, keys_unique, lemma_distinct_keys_bound, table_insert, views_of};
use crate::text::str_eq;
use crate::types::Ty;

verus! {

broadcast use vstd::string::group_string_axioms;

/// A resolved enum variant payload.
#[derive(Debug, PartialEq, Eq)]
pub enum ResolvedVariant {
    Unit,
    Tuple(Vec<Ty>),
    Record(Vec<(String, Ty)>),
}

/// A resolved type definition (record, enum or type alias).
#[derive(Debug, PartialEq, Eq)]
pub enum ResolvedTypeDef {
    Record(Vec<(String, Ty)>),
    Enum(Vec<(String, ResolvedVariant)>),
    Alias(Ty),
}

/// One resolved module: the segments of its `module a.b.c` path and its
/// type definitions by name (functions and externs are not included).
#[derive(Debug, PartialEq, Eq)]
pub struct ResolvedModule {
    pub path: Vec<String>,
    pub type_defs: Vec<(String, ResolvedTypeDef)>,
}

/// Finds the module an import path names. Implementations read and parse
/// files; the checker itself stays free of side effects.
pub trait ModuleResolver {
    fn resolve(&self, path: &[String]) -> Option<ResolvedModule>;
}

/// A resolver that finds nothing (the plain single-file check).
pub struct NoopResolver;

impl ModuleResolver for NoopResolver {
    fn resolve(&self, path: &[String]) -> (r: Option<ResolvedModule>)
        ensures
            r is None,
    {
        None
    }
}

/// Whether the module has a record, enum or alias item named `n`.
pub open spec fn defines_type(items: Seq<ast::Item>, n: Seq<char>) -> bool {
    exists|i: int| 0 <= i < items.len() && #[trigger] type_item_name(items[i]) == Some(n)
}

/// The name of a record, enum or alias item.
pub open spec fn type_item_name(item: ast::Item) -> Option<Seq<char>> {
    match item {
        ast::Item::Record(r) => Some(r.name.name@),
        ast::Item::Enum(e) => Some(e.name.name@),
        ast::Item::TypeAlias(a) => Some(a.name.name@),
        _ => None,
    }
}

struct Locals {
    records: Vec<String>,
    enums: Vec<String>,
    /// Alias name to item index; a later alias of the same name wins.
    aliases: Vec<(String, usize)>,
}

spec fn locals_wf(l: Locals, items: Seq<ast::Item>) -> bool {
    &&& keys_unique(l.aliases@)
    &&& forall|i: int| 0 <= i < l.aliases@.len() ==> {
        &&& (#[trigger] l.aliases@[i]).1 < items.len()
        &&& items[l.aliases@[i].1 as int] is TypeAlias
    }
}

spec fn visiting_wf(l: Locals, visiting: Seq<String>) -> bool {
    &&& views_of(visiting).no_duplicates()
    &&& forall|i: int| 0 <= i < visiting.len() ==> has_key(l.aliases@, #[trigger] visiting[i]@)
}

proof fn lemma_visiting_bound(l: Locals, visiting: Seq<String>)
    requires
        visiting_wf(l, visiting),
    ensures
        visiting.len() <= l.aliases@.len(),
{
    let vis = views_of(visiting);
    assert forall|i: int| 0 <= i < vis.len() implies has_key(l.aliases@, #[trigger] vis[i]) by {
        assert(vis[i] == visiting[i]@);
    }
    lemma_distinct_keys_bound(vis, l.aliases@);
}

fn ty_of_alias(name: &str, Ghost(anchor): Ghost<ast::Type>, l: &Locals, items: &Vec<ast::Item>, alias_tys: &mut Vec<(String, Ty)>, visiting: &mut Vec<String>) -> (r: Ty)
    requires
        locals_wf(*l, items@),
        visiting_wf(*l, old(visiting)@),
        keys_unique(old(alias_tys)@),
    ensures
        final(visiting)@ == old(visiting)@,
        keys_unique(final(alias_tys)@),
        forall|key: Seq<char>| has_key(old(alias_tys)@, key) ==> #[trigger] has_key(final(alias_tys)@, key),
        forall|j: int| 0 <= j < old(alias_tys)@.len() && (#[trigger] old(alias_tys)@[j]).0@ == name@ ==> r == old(alias_tys)@[j].1,
        has_key(l.aliases@, name@) && !views_of(old(visiting)@).contains(name@) ==> has_key(final(alias_tys)@, name@),
    decreases l.aliases@.len() - old(visiting)@.len(), 0nat, anchor,
{
    if let Some(i) = find_key(alias_tys, name) {
        proof {
            assert forall|j: int| 0 <= j < alias_tys@.len() && (#[trigger] alias_tys@[j]).0@ == name@ implies j == i by {
                if j != i {
                    assert(alias_tys@[j].0@ != alias_tys@[i as int].0@);
                }
            }
        }
        return alias_tys[i].1.duplicate();
    }
    if contains_str(visiting, name) {
        proof {
            let j = choose|j: int| 0 <= j < visiting@.len() && #[trigger] visiting@[j]@ == name@;
            assert(views_of(visiting@)[j] == name@);
        }
        return Ty::Unknown;
    }
    let Some(k) = find_key(&l.aliases, name) else {
        return Ty::Unknown;
    };
    let idx = l.aliases[k].1;
    let ghost before = visiting@;
    visiting.push(String::from_str(name));
    proof {
        let vis = views_of(visiting@);
        assert(vis =~= views_of(before).push(name@));
        assert forall|a: int, b: int| 0 <= a < b < vis.len() implies vis[a] != vis[b] by {
            if b == vis.len() - 1 {
                assert(vis[a] == before[a]@);
            } else {
                assert(views_of(before)[a] == vis[a] && views_of(before)[b] == vis[b]);
            }
        }
        assert forall|i: int| 0 <= i < visiting@.len() implies has_key(l.aliases@, #[trigger] visiting@[i]@) by {
            if i == visiting@.len() - 1 {
                assert(l.aliases@[k as int].0@ == name@);
            } else {
                assert(visiting@[i] == before[i]);
            }
        }
        lemma_visiting_bound(*l, visiting@);
    }
    let ty = match &items[idx] {
        ast::Item::TypeAlias(a) => {
            let base = ty_of(&a.ty, l, items, alias_tys, visiting);
            match &a.tag {
                Some(tag) => Ty::Tagged { name: tag.clone(), underlying: Box::new(base) },
                None => base,
            }
        },
        _ => Ty::Unknown,
    };
    visiting.pop();
    assert(visiting@ =~= before);
    table_insert(alias_tys, String::from_str(name), ty.duplicate());
    ty
}

fn ty_of(t: &ast::Type, l: &Locals, items: &Vec<ast::Item>, alias_tys: &mut Vec<(String, Ty)>, visiting: &mut Vec<String>) -> (r: Ty)
    requires
        locals_wf(*l, items@),
        visiting_wf(*l, old(visiting)@),
        keys_unique(old(alias_tys)@),
    ensures
        final(visiting)@ == old(visiting)@,
        keys_unique(final(alias_tys)@),
        forall|key: Seq<char>| has_key(old(alias_tys)@, key) ==> #[trigger] has_key(final(alias_tys)@, key),
        t.path@.len() != 1 ==> r == Ty::Unknown,
        t.path@.len() == 1 && t.args@.len() == 0 && t.path@[0].name@ == "Int"@ ==> r == Ty::Int,
        t.path@.len() == 1 && t.args@.len() == 0 && t.path@[0].name@ == "String"@ ==> r == Ty::Str,
        t.path@.len() == 1 && t.args@.len() == 0 && t.path@[0].name@ == "Bool"@ ==> r == Ty::Bool,
        t.path@.len() == 1 && t.args@.len() == 1 && t.path@[0].name@ == "Option"@ ==> r is Option,
        t.path@.len() == 1 && t.args@.len() == 1 && t.path@[0].name@ == "List"@ ==> r is List,
        t.path@.len() == 1 && t.args@.len() == 2 && t.path@[0].name@ == "Result"@ ==> r is Result,
    decreases l.aliases@.len() - old(visiting)@.len(), 1nat, *t,
{
    proof {
        lemma_visiting_bound(*l, visiting@);
        reveal_strlit("Int");
        reveal_strlit("String");
        reveal_strlit("Bool");
        reveal_strlit("Option");
        reveal_strlit("List");
        reveal_strlit("Result");
        assert("Int"@.len() == 3 && "Bool"@.len() == 4 && "String"@.len() == 6);
        assert("Option"@ != "String"@ && "Result"@ != "String"@ && "Result"@ != "Option"@) by {
            assert("Option"@[0] != "String"@[0] && "Result"@[0] != "String"@[0] && "Result"@[0] != "Option"@[0]);
        }
        assert("List"@ != "Bool"@) by { assert("List"@[0] != "Bool"@[0]); }
    }
    if t.path.len() != 1 {
        return Ty::Unknown;
    }
    let root = t.path[0].name.as_str();
    if str_eq(root, "Int") && t.args.len() == 0 {
        return Ty::Int;
    }
    if str_eq(root, "String") && t.args.len() == 0 {
        return Ty::Str;
    }
    if str_eq(root, "Bool") && t.args.len() == 0 {
        return Ty::Bool;
    }
    if str_eq(root, "Option") && t.args.len() == 1 {
        assert(decreases_to!(t.args@ => t.args@[0]));
        return Ty::Option(Box::new(ty_of(&t.args[0], l, items, alias_tys, visiting)));
    }
    if str_eq(root, "List") && t.args.len() == 1 {
        assert(decreases_to!(t.args@ => t.args@[0]));
        return Ty::List(Box::new(ty_of(&t.args[0], l, items, alias_tys, visiting)));
    }
    if str_eq(root, "Result") && t.args.len() == 2 {
        assert(decreases_to!(t.args@ => t.args@[0]));
        let ok = ty_of(&t.args[0], l, items, alias_tys, visiting);
        assert(decreases_to!(t.args@ => t.args@[1]));
        let err = ty_of(&t.args[1], l, items, alias_tys, visiting);
        return Ty::Result(Box::new(ok), Box::new(err));
    }
    if contains_str(&l.records, root) {
        return Ty::Record(t.path[0].name.clone());
    }
    if contains_str(&l.enums, root) {
        return Ty::Enum(t.path[0].name.clone());
    }
    if find_key(&l.aliases, root).is_some() {
        return ty_of_alias(root, Ghost(*t), l, items, alias_tys, visiting);
    }
    Ty::Unknown
}

fn resolve_field_types(fields: &Vec<ast::FieldDef>, l: &Locals, items: &Vec<ast::Item>, alias_tys: &mut Vec<(String, Ty)>) -> (r: Vec<(String, Ty)>)
    requires
        locals_wf(*l, items@),
        keys_unique(old(alias_tys)@),
    ensures
        keys_unique(final(alias_tys)@),
        r@.len() == fields@.len(),
        forall|i: int| 0 <= i < fields@.len() ==> #[trigger] r@[i].0 == fields@[i].name.name,
{
    let mut out: Vec<(String, Ty)> = Vec::new();
    let mut i: usize = 0;
    while i < fields.len()
        invariant
            locals_wf(*l, items@),
            keys_unique(alias_tys@),
            i <= fields@.len(),
            out@.len() == i,
            forall|k: int| 0 <= k < i ==> #[trigger] out@[k].0 == fields@[k].name.name,
        decreases fields@.len() - i,
    {
        let mut visiting: Vec<String> = Vec::new();
        proof { assert(views_of(visiting@) =~= Seq::<Seq<char>>::empty()); }
        let ty = ty_of(&fields[i].ty, l, items, alias_tys, &mut visiting);
        out.push((fields[i].name.name.clone(), ty));
        i = i + 1;
    }
    out
}

fn resolve_variants(variants: &Vec<ast::Variant>, l: &Locals, items: &Vec<ast::Item>, alias_tys: &mut Vec<(String, Ty)>) -> (r: Vec<(String, ResolvedVariant)>)
    requires
        locals_wf(*l, items@),
        keys_unique(old(alias_tys)@),
    ensures
        keys_unique(final(alias_tys)@),
        r@.len() == variants@.len(),
        forall|i: int| 0 <= i < variants@.len() ==> #[trigger] r@[i].0 == variants@[i].name.name,
{
    let mut out: Vec<(String, ResolvedVariant)> = Vec::new();
    let mut i: usize = 0;
    while i < variants.len()
        invariant
            locals_wf(*l, items@),
            keys_unique(alias_tys@),
            i <= variants@.len(),
            out@.len() == i,
            forall|k: int| 0 <= k < i ==> #[trigger] out@[k].0 == variants@[k].name.name,
        decreases variants@.len() - i,
    {
        let rv = match &variants[i].payload {
            ast::VariantPayload::Unit => ResolvedVariant::Unit,
            ast::VariantPayload::Tuple { types } => {
                let mut tys: Vec<Ty> = Vec::new();
                let mut j: usize = 0;
                while j < types.len()
                    invariant
                        locals_wf(*l, items@),
                        keys_unique(alias_tys@),
                        j <= types@.len(),
                    decreases types@.len() - j,
                {
                    let mut visiting: Vec<String> = Vec::new();
                    proof { assert(views_of(visiting@) =~= Seq::<Seq<char>>::empty()); }
                    tys.push(ty_of(&types[j], l, items, alias_tys, &mut visiting));
                    j = j + 1;
                }
                ResolvedVariant::Tuple(tys)
            },
            ast::VariantPayload::Record { fields } => ResolvedVariant::Record(resolve_field_types(fields, l, items, alias_tys)),
        };
        out.push((variants[i].name.name.clone(), rv));
        i = i + 1;
    }
    out
}

/// The position of the last record, enum or alias named `n` among the
/// first `k` items.
pub open spec fn last_type_item(items: Seq<ast::Item>, n: Seq<char>, k: int) -> Option<int>
    decreases k,
{
    if k <= 0 || k > items.len() {
        None
    } else if type_item_name(items[k - 1]) == Some(n) {
        Some(k - 1)
    } else {
        last_type_item(items, n, k - 1)
    }
}

/// A resolved definition has the kind of its item, and a record's fields or
/// an enum's variants are the item's, by name and in order.
pub open spec fn def_shape(d: ResolvedTypeDef, item: ast::Item) -> bool {
    match (d, item) {
        (ResolvedTypeDef::Record(fs), ast::Item::Record(r)) =>
            fs@.len() == r.fields@.len() && forall|j: int| 0 <= j < fs@.len() ==> #[trigger] fs@[j].0 == r.fields@[j].name.name,
        (ResolvedTypeDef::Enum(vs), ast::Item::Enum(e)) =>
            vs@.len() == e.variants@.len() && forall|j: int| 0 <= j < vs@.len() ==> #[trigger] vs@[j].0 == e.variants@[j].name.name,
        (ResolvedTypeDef::Alias(_), ast::Item::TypeAlias(_)) => true,
        _ => false,
    }
}

/// Each entry has the shape of the last item of its name among the first
/// `k` items.
pub open spec fn defs_shaped(defs: Seq<(String, ResolvedTypeDef)>, items: Seq<ast::Item>, k: int) -> bool {
    forall|e: int| 0 <= e < defs.len() ==> (#[trigger] last_type_item(items, defs[e].0@, k)) is Some
        && def_shape(defs[e].1, items[last_type_item(items, defs[e].0@, k)->0])
}

/// The type definitions of a parsed module, as another module sees them
/// through an import: one entry per record, enum and alias name (a later
/// definition of a name replaces an earlier one). Type references to the
/// module's own imports become `Unknown`; an alias cycle resolves to
/// `Unknown` where it closes.
pub fn module_type_defs(module: &ast::Module) -> (r: Vec<(String, ResolvedTypeDef)>)
    ensures
        keys_unique(r@),
        forall|n: Seq<char>| has_key(r@, n) <==> defines_type(module.items@, n),
        defs_shaped(r@, module.items@, module.items@.len() as int),
{
    let items = &module.items;
    let mut l = Locals { records: Vec::new(), enums: Vec::new(), aliases: Vec::new() };
    let mut i: usize = 0;
    while i < items.len()
        invariant
            i <= items@.len(),
            locals_wf(l, items@),
        decreases items@.len() - i,
    {
        match &items[i] {
            ast::Item::Record(r) => l.records.push(r.name.name.clone()),
            ast::Item::Enum(e) => l.enums.push(e.name.name.clone()),
            ast::Item::TypeAlias(a) => {
                let ghost before = l.aliases@;
                table_insert(&mut l.aliases, a.name.name.clone(), i);
                assert forall|k: int| 0 <= k < l.aliases@.len() implies {
                    &&& (#[trigger] l.aliases@[k]).1 < items@.len()
                    &&& items@[l.aliases@[k].1 as int] is TypeAlias
                } by {
                    if l.aliases@[k].0@ != a.name.name@ {
                        assert(l.aliases@[k] == before[k]);
                    }
                }
            },
            _ => {},
        }
        i = i + 1;
    }
    let mut alias_tys: Vec<(String, Ty)> = Vec::new();
    let mut k: usize = 0;
    while k < l.aliases.len()
        invariant
            locals_wf(l, items@),
            keys_unique(alias_tys@),
            k <= l.aliases@.len(),
        decreases l.aliases@.len() - k,
    {
        let mut visiting: Vec<String> = Vec::new();
        proof { assert(views_of(visiting@) =~= Seq::<Seq<char>>::empty()); }
        match &items[l.aliases[k].1] {
            ast::Item::TypeAlias(a) => {
                ty_of_alias(l.aliases[k].0.as_str(), Ghost(a.ty), &l, items, &mut alias_tys, &mut visiting);
            },
            _ => {},
        }
        k = k + 1;
    }
    let mut defs: Vec<(String, ResolvedTypeDef)> = Vec::new();
    let mut i: usize = 0;
    while i < items.len()
        invariant
            locals_wf(l, items@),
            keys_unique(alias_tys@),
            keys_unique(defs@),
            i <= items@.len(),
            forall|n: Seq<char>| has_key(defs@, n) <==> defines_type(items@.subrange(0, i as int), n),
            defs_shaped(defs@, items@, i as int),
        decreases items@.len() - i,
    {
        let ghost before = defs@;
        let ghost name: Option<Seq<char>> = type_item_name(items@[i as int]);
        match &items[i] {
            ast::Item::Record(r) => {
                let fields = resolve_field_types(&r.fields, &l, items, &mut alias_tys);
                table_insert(&mut defs, r.name.name.clone(), ResolvedTypeDef::Record(fields));
            },
            ast::Item::Enum(e) => {
                let variants = resolve_variants(&e.variants, &l, items, &mut alias_tys);
                table_insert(&mut defs, e.name.name.clone(), ResolvedTypeDef::Enum(variants));
            },
            ast::Item::TypeAlias(a) => {
                let ty = match find_key(&alias_tys, a.name.name.as_str()) {
                    Some(j) => alias_tys[j].1.duplicate(),
                    None => Ty::Unknown,
                };
                table_insert(&mut defs, a.name.name.clone(), ResolvedTypeDef::Alias(ty));
            },
            _ => {},
        }
        proof {
            assert forall|e: int| 0 <= e < defs@.len() implies (#[trigger] last_type_item(items@, defs@[e].0@, i + 1)) is Some
                && def_shape(defs@[e].1, items@[last_type_item(items@, defs@[e].0@, i + 1)->0]) by {
                if name == Some(defs@[e].0@) {
                    assert(last_type_item(items@, defs@[e].0@, i + 1) == Some(i as int));
                } else {
                    assert(last_type_item(items@, defs@[e].0@, i + 1) == last_type_item(items@, defs@[e].0@, i as int));
                    assert(e < before.len() && defs@[e] == before[e]);
                    assert(last_type_item(items@, before[e].0@, i as int) is Some);
                }
            }
            let pre = items@.subrange(0, i as int);
            let post = items@.subrange(0, i + 1);
            assert forall|n: Seq<char>| has_key(defs@, n) <==> defines_type(post, n) by {
                if defines_type(post, n) {
                    let w = choose|w: int| 0 <= w < post.len() && #[trigger] type_item_name(post[w]) == Some(n);
                    if w < i {
                        assert(pre[w] == post[w]);
                        assert(defines_type(pre, n));
                    }
                }
                if defines_type(pre, n) {
                    let w = choose|w: int| 0 <= w < pre.len() && #[trigger] type_item_name(pre[w]) == Some(n);
                    assert(post[w] == pre[w]);
                }
                if name == Some(n) {
                    assert(type_item_name(post[i as int]) == Some(n));
                }
            }
        }
        i = i + 1;
    }
    assert(items@.subrange(0, items@.len() as int) =~= items@);
    defs
}

} // verus!
