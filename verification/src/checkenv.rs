//! The checker's module environment: what each top-level name denotes, the
//! resolved record fields, enum variants, type aliases, function signatures
//! and extern signatures. Names map to values through keyed tables (see
//! [`crate::table`]); every diagnostic made here is placed in the checked
//! file and carries a fix.
use vstd::prelude::*;
use crate::ast;
use crate::contracts::direction;
use crate::diagnostic::{has_fix, Diagnostic, Fix, Position, Severity, Span, TextEdit};
use crate::span;
use crate::suggest::{better, eligible, suggestion};
use crate::notation::{path_text, push_path};
use crate::table::{find_key, has_key, keys_unique, spec_find};
use crate::text::{cat2, cat3, cat5, owned, push_str, str_eq, u64_string};
use crate::types::Ty;

verus! {

broadcast use vstd::string::group_string_axioms;

/// What a top-level name denotes.
#[derive(Debug, Clone, Copy, PartialEq, Eq, Structural)]
pub enum NameKind {
    Record,
    Enum,
    Alias,
    Func,
    Import,
}

/// The payload of an enum variant.
#[derive(Debug, PartialEq, Eq)]
pub enum VariantDef {
    Unit,
    Tuple(Vec<Ty>),
    Record(Vec<(String, Ty)>),
}

/// The resolved signature of a local function.
#[derive(Debug, PartialEq, Eq)]
pub struct FuncSig {
    pub params: Vec<(String, Ty)>,
    pub ret: Ty,
    /// Only the declared effects that name the standard hierarchy, each once.
    pub effects: Vec<String>,
    /// The end of the `uses` clause: where a fix appends `, X`.
    pub uses_end: Option<span::Position>,
}

/// The signature of an external boundary function.
#[derive(Debug, PartialEq, Eq)]
pub struct ExternSig {
    /// A pure observer (`extern query`), callable from contracts.
    pub query: bool,
    pub params: Vec<(String, Ty)>,
    pub ret: Ty,
    pub effects: Vec<String>,
}

/// The module environment.
pub struct Env {
    pub file: String,
    pub kinds: Vec<(String, NameKind)>,
    pub records: Vec<(String, Vec<(String, Ty)>)>,
    pub enums: Vec<(String, Vec<(String, VariantDef)>)>,
    pub aliases: Vec<(String, Ty)>,
    pub funcs: Vec<(String, FuncSig)>,
    /// Keyed by the full dotted path (`"Database.fetchBalance"`).
    pub externs: Vec<(String, ExternSig)>,
}

/// The tables of an environment have unique keys.
pub open spec fn env_wf(env: Env) -> bool {
    &&& keys_unique(env.kinds@)
    &&& keys_unique(env.records@)
    &&& keys_unique(env.enums@)
    &&& keys_unique(env.aliases@)
    &&& keys_unique(env.funcs@)
    &&& keys_unique(env.externs@)
}

/// What `name` denotes in `env`, if anything.
pub open spec fn kind_of(env: Env, name: Seq<char>) -> Option<NameKind> {
    match spec_find(env.kinds@, name) {
        Some(i) => Some(env.kinds@[i].1),
        None => None,
    }
}

/// The type alias `name` stands for, if it is resolved.
pub open spec fn alias_of(env: Env, name: Seq<char>) -> Option<Ty> {
    match spec_find(env.aliases@, name) {
        Some(i) => Some(env.aliases@[i].1),
        None => None,
    }
}

/// Every diagnostic offers a fix, lies in `file`, and proposes no contract
/// (the checking passes make none; only the opt-in suggestion pass does).
pub open spec fn well_reported(ds: Seq<Diagnostic>, file: Seq<char>) -> bool {
    forall|i: int| 0 <= i < ds.len() ==> has_fix(#[trigger] ds[i]) && ds[i].span.file@ == file && ds[i].suggested_contract is None
}

/// Every diagnostic offers a fix and lies in `file`.
pub open spec fn reported_in(ds: Seq<Diagnostic>, file: Seq<char>) -> bool {
    forall|i: int| 0 <= i < ds.len() ==> has_fix(#[trigger] ds[i]) && ds[i].span.file@ == file
}

/// `new` continues `old`: the diagnostics made so far are kept, in order.
pub open spec fn extends(old: Seq<Diagnostic>, new: Seq<Diagnostic>) -> bool {
    &&& old.len() <= new.len()
    &&& forall|i: int| 0 <= i < old.len() ==> #[trigger] new[i] == old[i]
}

/// A syntax-tree span placed in `file`.
pub open spec fn placed(file: Seq<char>, s: span::Span, r: Span) -> bool {
    &&& r.file@ == file
    &&& r.start == Position { line: s.start.line, col: s.start.col }
    &&& r.end == Position { line: s.end.line, col: s.end.col }
}

/// `d` reports `code` with `severity` at `s` in `file`, with the single fix `fix`.
pub open spec fn reports(d: Diagnostic, severity: Severity, code: Seq<char>, file: Seq<char>, s: span::Span, fix: Fix) -> bool {
    &&& d.severity == severity
    &&& d.code@ == code
    &&& placed(file, s, d.span)
    &&& d.fixes@ == seq![fix]
    &&& d.suggested_contract is None
}

/// A syntax-tree span placed in `file`.
pub fn place(file: &String, s: span::Span) -> (r: Span)
    ensures
        placed(file@, s, r),
{
    Span {
        file: file.clone(),
        start: Position { line: s.start.line, col: s.start.col },
        end: Position { line: s.end.line, col: s.end.col },
    }
}

/// Appends a diagnostic with a single fix.
pub fn report(diags: &mut Vec<Diagnostic>, file: &String, severity: Severity, code: &str, message: String, s: span::Span, fix: Fix)
    requires
        well_reported(old(diags)@, file@),
    ensures
        well_reported(final(diags)@, file@),
        final(diags)@.len() == old(diags)@.len() + 1,
        extends(old(diags)@, final(diags)@),
        reports(final(diags)@.last(), severity, code@, file@, s, fix),
        final(diags)@.last().message == message,
{
    let mut fixes: Vec<Fix> = Vec::new();
    fixes.push(fix);
    let d = Diagnostic {
        severity,
        code: owned(code),
        message,
        span: place(file, s),
        fixes,
        suggested_contract: None,
    };
    diags.push(d);
    assert(d.fixes@ =~= seq![fix]);
    assert(has_fix(diags@.last()));
}

/// A fix that replaces the text under `s` with `new_text`.
pub fn replace_fix(file: &String, title: String, s: span::Span, new_text: &str) -> (f: Fix)
    ensures
        f.title == title,
        f.edits@.len() == 1,
        placed(file@, s, f.edits@[0].span),
        f.edits@[0].new_text@ == new_text@,
{
    Fix { title, edits: vec![TextEdit { span: place(file, s), new_text: owned(new_text) }] }
}

/// The fix for a misspelled name: replace it with the suggestion when there
/// is one, else point in `fallback`'s direction.
pub fn suggest_fix(file: &String, name: &str, candidates: &Vec<String>, s: span::Span, fallback: String) -> (f: Fix)
    ensures
        (forall|i: int| 0 <= i < candidates@.len() ==> !eligible(name@, #[trigger] candidates@[i]@)) ==> f.title == fallback && f.edits@.len() == 0,
        (exists|i: int| 0 <= i < candidates@.len() && eligible(name@, #[trigger] candidates@[i]@)) ==> {
            &&& f.edits@.len() == 1
            &&& placed(file@, s, f.edits@[0].span)
            &&& f.title@ == "Did you mean '"@ + f.edits@[0].new_text@ + "'?"@
            &&& eligible(name@, f.edits@[0].new_text@)
            &&& exists|i: int| 0 <= i < candidates@.len() && #[trigger] candidates@[i]@ == f.edits@[0].new_text@
            &&& forall|i: int| 0 <= i < candidates@.len() && eligible(name@, #[trigger] candidates@[i]@)
                ==> !better(name@, candidates@[i]@, f.edits@[0].new_text@)
        },
{
    match suggestion(name, candidates) {
        Some(c) => replace_fix(file, cat3("Did you mean '", c.as_str(), "'?"), s, c.as_str()),
        None => direction(fallback),
    }
}

/// A copy of a list of named types.
pub fn dup_fields(v: &Vec<(String, Ty)>) -> (r: Vec<(String, Ty)>)
    ensures
        r@ == v@,
{
    let mut out: Vec<(String, Ty)> = Vec::new();
    let mut i: usize = 0;
    while i < v.len()
        invariant
            i <= v@.len(),
            out@ == v@.subrange(0, i as int),
        decreases v@.len() - i,
    {
        out.push((v[i].0.clone(), v[i].1.duplicate()));
        assert(out@ =~= v@.subrange(0, i + 1));
        i = i + 1;
    }
    assert(v@.subrange(0, v@.len() as int) =~= v@);
    out
}

/// A copy of a list of types.
pub fn dup_tys(v: &Vec<Ty>) -> (r: Vec<Ty>)
    ensures
        r@ == v@,
{
    let mut out: Vec<Ty> = Vec::new();
    let mut i: usize = 0;
    while i < v.len()
        invariant
            i <= v@.len(),
            out@ == v@.subrange(0, i as int),
        decreases v@.len() - i,
    {
        out.push(v[i].duplicate());
        assert(out@ =~= v@.subrange(0, i + 1));
        i = i + 1;
    }
    assert(v@.subrange(0, v@.len() as int) =~= v@);
    out
}

/// A copy of a list of strings.
pub fn dup_strings(v: &Vec<String>) -> (r: Vec<String>)
    ensures
        r@ == v@,
{
    let mut out: Vec<String> = Vec::new();
    let mut i: usize = 0;
    while i < v.len()
        invariant
            i <= v@.len(),
            out@ == v@.subrange(0, i as int),
        decreases v@.len() - i,
    {
        out.push(v[i].clone());
        assert(out@ =~= v@.subrange(0, i + 1));
        i = i + 1;
    }
    assert(v@.subrange(0, v@.len() as int) =~= v@);
    out
}

/// Two variant payloads with the same content.
pub open spec fn same_variant(a: VariantDef, b: VariantDef) -> bool {
    match (a, b) {
        (VariantDef::Unit, VariantDef::Unit) => true,
        (VariantDef::Tuple(x), VariantDef::Tuple(y)) => x@ == y@,
        (VariantDef::Record(x), VariantDef::Record(y)) => x@ == y@,
        _ => false,
    }
}

impl VariantDef {
    pub fn duplicate(&self) -> (r: VariantDef)
        ensures
            same_variant(r, *self),
    {
        match self {
            VariantDef::Unit => VariantDef::Unit,
            VariantDef::Tuple(ts) => VariantDef::Tuple(dup_tys(ts)),
            VariantDef::Record(fs) => VariantDef::Record(dup_fields(fs)),
        }
    }
}

/// Two variant lists with the same names and payloads.
pub open spec fn same_variants(a: Seq<(String, VariantDef)>, b: Seq<(String, VariantDef)>) -> bool {
    &&& a.len() == b.len()
    &&& forall|i: int| 0 <= i < a.len() ==> #[trigger] a[i].0 == b[i].0 && same_variant(a[i].1, b[i].1)
}

/// A copy of a list of variants.
pub fn dup_variants(v: &Vec<(String, VariantDef)>) -> (r: Vec<(String, VariantDef)>)
    ensures
        same_variants(r@, v@),
{
    let mut out: Vec<(String, VariantDef)> = Vec::new();
    let mut i: usize = 0;
    while i < v.len()
        invariant
            i <= v@.len(),
            out@.len() == i,
            forall|k: int| 0 <= k < i ==> #[trigger] out@[k].0 == v@[k].0 && same_variant(out@[k].1, v@[k].1),
        decreases v@.len() - i,
    {
        out.push((v[i].0.clone(), v[i].1.duplicate()));
        i = i + 1;
    }
    out
}

/// Two function signatures with the same content.
pub open spec fn same_sig(a: FuncSig, b: FuncSig) -> bool {
    a.params@ == b.params@ && a.ret == b.ret && a.effects@ == b.effects@ && a.uses_end == b.uses_end
}

impl FuncSig {
    pub fn duplicate(&self) -> (r: FuncSig)
        ensures
            same_sig(r, *self),
    {
        FuncSig {
            params: dup_fields(&self.params),
            ret: self.ret.duplicate(),
            effects: dup_strings(&self.effects),
            uses_end: self.uses_end,
        }
    }
}

impl ExternSig {
    pub fn duplicate(&self) -> (r: ExternSig)
        ensures
            r.query == self.query && r.params@ == self.params@ && r.ret == self.ret && r.effects@ == self.effects@,
    {
        ExternSig {
            query: self.query,
            params: dup_fields(&self.params),
            ret: self.ret.duplicate(),
            effects: dup_strings(&self.effects),
        }
    }
}

impl Env {
    /// What `name` denotes, if anything.
    pub fn kind(&self, name: &str) -> (r: Option<NameKind>)
        ensures
            r == kind_of(*self, name@),
    {
        match find_key(&self.kinds, name) {
            Some(i) => {
                proof { self.lemma_find_is_first_kind(i as int, name@); }
                Some(self.kinds[i].1)
            },
            None => None,
        }
    }

    proof fn lemma_find_is_first_kind(&self, i: int, k: Seq<char>)
        requires
            0 <= i < self.kinds@.len(),
            self.kinds@[i].0@ == k,
            forall|j: int| 0 <= j < i ==> #[trigger] self.kinds@[j].0@ != k,
        ensures
            spec_find(self.kinds@, k) == Some(i),
    {
        let c = choose|w: int| 0 <= w < self.kinds@.len() && self.kinds@[w].0@ == k
            && forall|j: int| 0 <= j < w ==> #[trigger] self.kinds@[j].0@ != k;
        if c < i {
            assert(self.kinds@[c].0@ != k);
        } else if c > i {
            assert(self.kinds@[i].0@ != k);
        }
    }

    /// The names of all top-level entries whose kind satisfies `keep`.
    pub fn names_where(&self, funcs: bool, records_enums_only: bool) -> (r: Vec<String>)
        ensures
            r@.map_values(|x: String| x@) == kept_names(self.kinds@, self.kinds@.len(), funcs, records_enums_only),
    {
        let mut out: Vec<String> = Vec::new();
        let mut i: usize = 0;
        while i < self.kinds.len()
            invariant
                i <= self.kinds@.len(),
                out@.map_values(|x: String| x@) == kept_names(self.kinds@, i as nat, funcs, records_enums_only),
            decreases self.kinds@.len() - i,
        {
            let ghost before = out@;
            let k = self.kinds[i].1;
            let keep = if records_enums_only {
                k == NameKind::Record || k == NameKind::Enum
            } else {
                funcs || k != NameKind::Func
            };
            if keep {
                out.push(self.kinds[i].0.clone());
                assert(out@.map_values(|x: String| x@) =~= before.map_values(|x: String| x@).push(self.kinds@[i as int].0@));
            }
            i = i + 1;
        }
        out
    }
}

/// Whether `names_where` keeps an entry of kind `k`.
pub open spec fn keeps_kind(k: NameKind, funcs: bool, records_enums_only: bool) -> bool {
    if records_enums_only { k == NameKind::Record || k == NameKind::Enum } else { funcs || k != NameKind::Func }
}

/// The names of the first `n` entries of `kinds` that are kept, in order.
pub open spec fn kept_names(kinds: Seq<(String, NameKind)>, n: nat, funcs: bool, records_enums_only: bool) -> Seq<Seq<char>>
    decreases n,
{
    if n == 0 {
        Seq::empty()
    } else {
        let rest = kept_names(kinds, (n - 1) as nat, funcs, records_enums_only);
        if keeps_kind(kinds[n - 1].1, funcs, records_enums_only) { rest.push(kinds[n - 1].0@) } else { rest }
    }
}

/// The names of a path joined with `.`.
pub fn dotted(p: &Vec<ast::Ident>) -> (r: String)
    ensures
        r@ == path_text(p@, p@.len()),
{
    let mut s = String::new();
    push_path(&mut s, p);
    assert(Seq::<char>::empty() + path_text(p@, p@.len()) =~= path_text(p@, p@.len()));
    s
}

/// The type a type reference denotes: built-ins first (`Int`, `String`,
/// `Bool`, and `Result`, `Option`, `List` with the right number of
/// arguments), then local definitions and resolved imports; anything else
/// (a wrong arity, an opaque import, an undefined name) is `Unknown`.
pub open spec fn spec_resolve(env: Env, t: ast::Type) -> Ty
    decreases t,
{
    if t.path@.len() != 1 {
        Ty::Unknown
    } else {
        let root = t.path@[0].name@;
        if root == "Int"@ {
            Ty::Int
        } else if root == "String"@ {
            Ty::Str
        } else if root == "Bool"@ {
            Ty::Bool
        } else if root == "Result"@ {
            if t.args@.len() == 2 {
                Ty::Result(Box::new(spec_resolve(env, t.args@[0])), Box::new(spec_resolve(env, t.args@[1])))
            } else {
                Ty::Unknown
            }
        } else if root == "Option"@ {
            if t.args@.len() == 1 { Ty::Option(Box::new(spec_resolve(env, t.args@[0]))) } else { Ty::Unknown }
        } else if root == "List"@ {
            if t.args@.len() == 1 { Ty::List(Box::new(spec_resolve(env, t.args@[0]))) } else { Ty::Unknown }
        } else {
            match kind_of(env, root) {
                Some(NameKind::Record) => Ty::Record(t.path@[0].name),
                Some(NameKind::Enum) => Ty::Enum(t.path@[0].name),
                Some(NameKind::Alias) => match alias_of(env, root) {
                    Some(a) => a,
                    None => Ty::Unknown,
                },
                _ => Ty::Unknown,
            }
        }
    }
}

impl Env {
    /// The resolved alias `name`, if any.
    pub fn alias(&self, name: &str) -> (r: Option<Ty>)
        requires
            keys_unique(self.aliases@),
        ensures
            r == alias_of(*self, name@),
    {
        match find_key(&self.aliases, name) {
            Some(i) => {
                proof {
                    let c = choose|w: int| 0 <= w < self.aliases@.len() && self.aliases@[w].0@ == name@
                        && forall|j: int| 0 <= j < w ==> #[trigger] self.aliases@[j].0@ != name@;
                    if c != i as int {
                        assert(self.aliases@[c].0@ == self.aliases@[i as int].0@);
                    }
                }
                Some(self.aliases[i].1.duplicate())
            },
            None => None,
        }
    }

    /// Checks the number of type arguments of `t`; reports `KEI-E2006`
    /// (wrong arity) and returns `false` when it differs from `expected`.
    pub fn check_type_args(&self, t: &ast::Type, expected: usize, diags: &mut Vec<Diagnostic>) -> (ok: bool)
        requires
            well_reported(old(diags)@, self.file@),
            t.path@.len() >= 1,
        ensures
            well_reported(final(diags)@, self.file@),
            extends(old(diags)@, final(diags)@),
            ok == (t.args@.len() == expected),
            ok ==> final(diags)@ == old(diags)@,
            !ok ==> final(diags)@.len() == old(diags)@.len() + 1
                && final(diags)@.last().code@ == "KEI-E2006"@ && placed(self.file@, t.span, final(diags)@.last().span)
                && final(diags)@.last().severity == Severity::Error,
    {
        if t.args.len() == expected {
            return true;
        }
        let name = t.path[0].name.as_str();
        let message = if expected == 0 {
            cat3("type '", name, "' takes no type arguments")
        } else {
            let mut m = cat3("type '", name, "' takes ");
            push_str(&mut m, u64_string(expected as u64).as_str());
            push_str(&mut m, " type argument(s), found ");
            push_str(&mut m, u64_string(t.args.len() as u64).as_str());
            m
        };
        report(diags, &self.file, Severity::Error, "KEI-E2006", message, t.span, direction(owned("Adjust the type arguments")));
        false
    }

    /// The code of the error a type reference's head is reported with, if
    /// any: an undefined (or non-type) name is `KEI-E1002`, a wrong number
    /// of type arguments is `KEI-E2006`; a dotted name through an import is
    /// opaque.
    pub open spec fn type_head_error(env: Env, t: ast::Type) -> Option<Seq<char>> {
        if t.path@.len() == 0 {
            None
        } else {
            let root = t.path@[0].name@;
            let n = t.args@.len();
            if t.path@.len() > 1 {
                if kind_of(env, root) == Some(NameKind::Import) { None } else { Some("KEI-E1002"@) }
            } else if root == "Int"@ || root == "String"@ || root == "Bool"@ {
                if n != 0 { Some("KEI-E2006"@) } else { None }
            } else if root == "Result"@ {
                if n != 2 { Some("KEI-E2006"@) } else { None }
            } else if root == "Option"@ || root == "List"@ {
                if n != 1 { Some("KEI-E2006"@) } else { None }
            } else {
                match kind_of(env, root) {
                    Some(NameKind::Import) => None,
                    Some(NameKind::Func) => Some("KEI-E1002"@),
                    None => Some("KEI-E1002"@),
                    _ => if n != 0 { Some("KEI-E2006"@) } else { None },
                }
            }
        }
    }

    /// The type `t` denotes (see [`spec_resolve`]); reports undefined types
    /// (`KEI-E1002`) and wrong type arities (`KEI-E2006`) on the way.
    pub fn resolve_ty(&self, t: &ast::Type, diags: &mut Vec<Diagnostic>) -> (r: Ty)
        requires
            env_wf(*self),
            well_reported(old(diags)@, self.file@),
        ensures
            well_reported(final(diags)@, self.file@),
            extends(old(diags)@, final(diags)@),
            r == spec_resolve(*self, *t),
            Self::type_head_error(*self, *t) matches Some(c) ==> crate::envbuild::has_error_at(final(diags)@, c, self.file@, t.span),
        decreases t,
    {
        proof {
            reveal_strlit("Int");
            reveal_strlit("String");
            reveal_strlit("Bool");
            reveal_strlit("Result");
            reveal_strlit("Option");
            reveal_strlit("List");
            assert("Int"@.len() == 3 && "Bool"@.len() == 4 && "List"@.len() == 4);
            assert("String"@.len() == 6 && "Result"@.len() == 6 && "Option"@.len() == 6);
            assert("Bool"@[0] != "List"@[0] && "String"@[0] != "Result"@[0] && "String"@[0] != "Option"@[0] && "Result"@[0] != "Option"@[0]);
        }
        if t.path.len() == 0 {
            return Ty::Unknown;
        }
        let root = t.path[0].name.as_str();
        if t.path.len() > 1 {
            if self.kind(root) == Some(NameKind::Import) {
                let mut i: usize = 0;
                while i < t.args.len()
                    invariant
                        env_wf(*self),
                        i <= t.args@.len(),
                        well_reported(diags@, self.file@),
                        extends(old(diags)@, diags@),
                    decreases t.args@.len() - i,
                {
                    assert(decreases_to!(t.args@ => t.args@[i as int]));
                    self.resolve_ty(&t.args[i], diags);
                    i = i + 1;
                }
                return Ty::Unknown;
            }
            let full = dotted(&t.path);
            report(diags, &self.file, Severity::Error, "KEI-E1002", cat3("undefined type '", full.as_str(), "'"), t.span,
                direction(cat3("Define or import '", full.as_str(), "'")));
            return Ty::Unknown;
        }
        if str_eq(root, "Int") {
            self.check_type_args(t, 0, diags);
            return Ty::Int;
        }
        if str_eq(root, "String") {
            self.check_type_args(t, 0, diags);
            return Ty::Str;
        }
        if str_eq(root, "Bool") {
            self.check_type_args(t, 0, diags);
            return Ty::Bool;
        }
        if str_eq(root, "Result") {
            if !self.check_type_args(t, 2, diags) {
                return Ty::Unknown;
            }
            assert(decreases_to!(t.args@ => t.args@[0]));
            let ok = self.resolve_ty(&t.args[0], diags);
            assert(decreases_to!(t.args@ => t.args@[1]));
            let err = self.resolve_ty(&t.args[1], diags);
            return Ty::Result(Box::new(ok), Box::new(err));
        }
        if str_eq(root, "Option") {
            if !self.check_type_args(t, 1, diags) {
                return Ty::Unknown;
            }
            assert(decreases_to!(t.args@ => t.args@[0]));
            return Ty::Option(Box::new(self.resolve_ty(&t.args[0], diags)));
        }
        if str_eq(root, "List") {
            if !self.check_type_args(t, 1, diags) {
                return Ty::Unknown;
            }
            assert(decreases_to!(t.args@ => t.args@[0]));
            return Ty::List(Box::new(self.resolve_ty(&t.args[0], diags)));
        }
        match self.kind(root) {
            Some(NameKind::Record) => {
                self.check_type_args(t, 0, diags);
                Ty::Record(t.path[0].name.clone())
            },
            Some(NameKind::Enum) => {
                self.check_type_args(t, 0, diags);
                Ty::Enum(t.path[0].name.clone())
            },
            Some(NameKind::Alias) => {
                self.check_type_args(t, 0, diags);
                match self.alias(root) {
                    Some(a) => a,
                    None => Ty::Unknown,
                }
            },
            Some(NameKind::Import) => {
                let mut i: usize = 0;
                while i < t.args.len()
                    invariant
                        env_wf(*self),
                        i <= t.args@.len(),
                        well_reported(diags@, self.file@),
                        extends(old(diags)@, diags@),
                    decreases t.args@.len() - i,
                {
                    assert(decreases_to!(t.args@ => t.args@[i as int]));
                    self.resolve_ty(&t.args[i], diags);
                    i = i + 1;
                }
                Ty::Unknown
            },
            Some(NameKind::Func) => {
                report(diags, &self.file, Severity::Error, "KEI-E1002", cat3("'", root, "' is a function, not a type"), t.span,
                    direction(owned("Reference a type here")));
                Ty::Unknown
            },
            None => {
                let mut candidates = self.names_where(false, false);
                candidates.push(owned("Int"));
                candidates.push(owned("String"));
                candidates.push(owned("Bool"));
                candidates.push(owned("Result"));
                candidates.push(owned("Option"));
                candidates.push(owned("List"));
                let fix = suggest_fix(&self.file, root, &candidates, t.path[0].span, cat3("Define or import '", root, "'"));
                report(diags, &self.file, Severity::Error, "KEI-E1002", cat3("undefined type '", root, "'"), t.span, fix);
                Ty::Unknown
            },
        }
    }
}

} // verus!
