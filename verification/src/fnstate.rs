//! The state of checking one function: the diagnostics so far, the scopes
//! of local names (innermost last; the first holds the parameters), and the
//! positions of list method calls when those are being collected. The
//! checking context says where the checker is: in the body or in a
//! contract clause.
use vstd::prelude::*;
use crate::checkenv::{env_wf, extends, report, well_reported, Env, FuncSig};
use crate::contracts::direction;
use crate::diagnostic::{Diagnostic, Fix, Severity, TextEdit};
use crate::checkenv::place;
use crate::effects::{covers, spec_covers};
use crate::envbuild::funcs_registered;
use crate::span;
use crate::table::{find_key, keys_unique, spec_find, table_insert};
use crate::text::{cat2, cat3, cat5, owned, push_str, u64_string};
use crate::types::Ty;

verus! {

broadcast use vstd::string::group_string_axioms;

/// Where in a function the checker is.
#[derive(Debug, Clone, Copy, PartialEq, Eq, Structural)]
pub enum Mode {
    Body,
    Requires,
    Ensures,
}

/// What stays fixed while one function is checked.
pub struct Cx<'a> {
    pub env: &'a Env,
    pub sig: &'a FuncSig,
    pub fname: &'a String,
    pub mode: Mode,
    /// Warn about external calls that have no `extern` declaration.
    pub strict_extern: bool,
}

/// What changes while one function is checked.
pub struct FnState {
    pub diags: Vec<Diagnostic>,
    /// Innermost last; the first scope holds the parameters.
    pub scopes: Vec<Vec<(String, Ty)>>,
    /// The `(line, col)` of each list method name, each once, when collected.
    pub list_ops: Option<Vec<(u32, u32)>>,
}

/// The context is sound: a well-formed environment whose function names all
/// have signatures.
pub open spec fn cx_ok(cx: Cx) -> bool {
    &&& env_wf(*cx.env)
    &&& funcs_registered(*cx.env)
}

/// The state invariant: diagnostics placed in the checked file with a fix,
/// at least one scope, and no position recorded twice.
pub open spec fn st_ok(cx: Cx, st: FnState) -> bool {
    &&& well_reported(st.diags@, cx.env.file@)
    &&& st.scopes@.len() >= 1
    &&& forall|i: int| 0 <= i < st.scopes@.len() ==> keys_unique(#[trigger] st.scopes@[i]@)
    &&& (st.list_ops matches Some(v) ==> v@.no_duplicates())
}

/// One step of checking: the invariant kept, the diagnostics extended, the
/// scopes as they were, the collection switched on or off as it was.
pub open spec fn stepped(cx: Cx, old: FnState, new: FnState) -> bool {
    &&& st_ok(cx, new)
    &&& extends(old.diags@, new.diags@)
    &&& new.scopes@ == old.scopes@
    &&& (new.list_ops is Some <==> old.list_ops is Some)
}

/// The type bound to `name` in the innermost scope that binds it.
pub open spec fn scope_lookup(scopes: Seq<Vec<(String, Ty)>>, name: Seq<char>) -> Option<Ty>
    decreases scopes.len(),
{
    if scopes.len() == 0 {
        None
    } else {
        match spec_find(scopes.last()@, name) {
            Some(i) => Some(scopes.last()@[i].1),
            None => scope_lookup(scopes.drop_last(), name),
        }
    }
}

/// The type bound to `name` in the innermost scope that binds it.
pub fn lookup_scope(st: &FnState, name: &str) -> (r: Option<Ty>)
    ensures
        r == scope_lookup(st.scopes@, name@),
{
    let mut i = st.scopes.len();
    assert(st.scopes@.subrange(0, i as int) =~= st.scopes@);
    while i > 0
        invariant
            i <= st.scopes@.len(),
            scope_lookup(st.scopes@, name@) == scope_lookup(st.scopes@.subrange(0, i as int), name@),
        decreases i,
    {
        let ghost pre = st.scopes@.subrange(0, i as int);
        assert(pre.drop_last() =~= st.scopes@.subrange(0, i - 1));
        match find_key(&st.scopes[i - 1], name) {
            Some(j) => {
                proof {
                    let t = st.scopes@[i - 1]@;
                    let c = choose|w: int| 0 <= w < t.len() && t[w].0@ == name@
                        && forall|k: int| 0 <= k < w ==> #[trigger] t[k].0@ != name@;
                    if c < j as int {
                        assert(t[c].0@ != name@);
                    } else if c > j as int {
                        assert(t[j as int].0@ != name@);
                    }
                }
                return Some(st.scopes[i - 1][j].1.duplicate());
            },
            None => {},
        }
        i = i - 1;
    }
    None
}

/// The names a scope binds, in order.
pub open spec fn scope_binding_names(sc: Seq<(String, Ty)>) -> Seq<Seq<char>> {
    sc.map_values(|p: (String, Ty)| p.0@)
}

/// The names bound in the first `n` scopes, outermost first.
pub open spec fn names_in_scopes(scopes: Seq<Vec<(String, Ty)>>, n: nat) -> Seq<Seq<char>>
    decreases n,
{
    if n == 0 || n > scopes.len() {
        Seq::empty()
    } else {
        names_in_scopes(scopes, (n - 1) as nat) + scope_binding_names(scopes[n - 1]@)
    }
}

/// All names bound in the scopes, outermost first.
pub fn scope_names(st: &FnState) -> (r: Vec<String>)
    ensures
        r@.map_values(|s: String| s@) == names_in_scopes(st.scopes@, st.scopes@.len()),
{
    let mut out: Vec<String> = Vec::new();
    let mut i: usize = 0;
    while i < st.scopes.len()
        invariant
            i <= st.scopes@.len(),
            out@.map_values(|s: String| s@) == names_in_scopes(st.scopes@, i as nat),
        decreases st.scopes@.len() - i,
    {
        let ghost before = out@.map_values(|s: String| s@);
        let mut j: usize = 0;
        while j < st.scopes[i].len()
            invariant
                i < st.scopes@.len(),
                j <= st.scopes@[i as int]@.len(),
                out@.map_values(|s: String| s@) == before + scope_binding_names(st.scopes@[i as int]@).take(j as int),
            decreases st.scopes@[i as int]@.len() - j,
        {
            let ghost o0 = out@;
            let c = st.scopes[i][j].0.clone();
            out.push(c);
            assert(out@ == o0.push(c));
            assert(out@.map_values(|s: String| s@) =~= o0.map_values(|s: String| s@).push(c@));
            assert(scope_binding_names(st.scopes@[i as int]@).take(j + 1)
                =~= scope_binding_names(st.scopes@[i as int]@).take(j as int).push(st.scopes@[i as int]@[j as int].0@));
            assert(out@.map_values(|s: String| s@) =~= before + scope_binding_names(st.scopes@[i as int]@).take(j + 1));
            j = j + 1;
        }
        assert(scope_binding_names(st.scopes@[i as int]@).take(st.scopes@[i as int]@.len() as int)
            =~= scope_binding_names(st.scopes@[i as int]@));
        i = i + 1;
    }
    out
}

/// Appends an error.
pub fn err(cx: &Cx, st: &mut FnState, code: &str, message: String, s: span::Span, fix: Fix)
    requires
        st_ok(*cx, *old(st)),
    ensures
        st_ok(*cx, *final(st)),
        final(st).scopes == old(st).scopes,
        final(st).list_ops == old(st).list_ops,
        extends(old(st).diags@, final(st).diags@),
        final(st).diags@.len() == old(st).diags@.len() + 1,
        crate::checkenv::reports(final(st).diags@.last(), Severity::Error, code@, cx.env.file@, s, fix),
{
    report(&mut st.diags, &cx.env.file, Severity::Error, code, message, s, fix);
}

/// Appends a warning.
pub fn warn(cx: &Cx, st: &mut FnState, code: &str, message: String, s: span::Span, fix: Fix)
    requires
        st_ok(*cx, *old(st)),
    ensures
        st_ok(*cx, *final(st)),
        final(st).scopes == old(st).scopes,
        final(st).list_ops == old(st).list_ops,
        extends(old(st).diags@, final(st).diags@),
        final(st).diags@.len() == old(st).diags@.len() + 1,
        crate::checkenv::reports(final(st).diags@.last(), Severity::Warning, code@, cx.env.file@, s, fix),
{
    report(&mut st.diags, &cx.env.file, Severity::Warning, code, message, s, fix);
}

/// Records the position of a list method name (once).
pub fn record_list_op(st: &mut FnState, pos: span::Position)
    requires
        old(st).list_ops matches Some(v) ==> v@.no_duplicates(),
    ensures
        final(st).diags == old(st).diags,
        final(st).scopes == old(st).scopes,
        final(st).list_ops is Some <==> old(st).list_ops is Some,
        final(st).list_ops matches Some(v) ==> v@.no_duplicates() && v@.contains((pos.line, pos.col)),
{
    match st.list_ops.take() {
        Some(mut v) => {
            let key = (pos.line, pos.col);
            let mut i: usize = 0;
            let mut found = false;
            while i < v.len()
                invariant
                    i <= v@.len(),
                    found ==> v@.contains(key),
                    !found ==> forall|k: int| 0 <= k < i ==> v@[k] != key,
                decreases v@.len() - i,
            {
                if v[i].0 == key.0 && v[i].1 == key.1 {
                    found = true;
                    assert(v@[i as int] == key);
                }
                i = i + 1;
            }
            if !found {
                let ghost before = v@;
                v.push(key);
                proof {
                    assert forall|a: int, b: int| 0 <= a < b < v@.len() implies v@[a] != v@[b] by {
                        if b == v@.len() - 1 {
                            assert(v@[a] == before[a]);
                        } else {
                            assert(before[a] == v@[a] && before[b] == v@[b]);
                        }
                    }
                    assert(v@[v@.len() - 1] == key);
                }
            }
            st.list_ops = Some(v);
        },
        None => {},
    }
}

/// Checks the number of arguments: reports `KEI-E2001` when it differs.
pub fn expect_arity(cx: &Cx, st: &mut FnState, name: &str, expected: usize, found: usize, s: span::Span) -> (ok: bool)
    requires
        st_ok(*cx, *old(st)),
    ensures
        st_ok(*cx, *final(st)),
        final(st).scopes == old(st).scopes,
        final(st).list_ops == old(st).list_ops,
        extends(old(st).diags@, final(st).diags@),
        ok == (expected == found),
        ok ==> final(st).diags@ == old(st).diags@,
        !ok ==> final(st).diags@.len() == old(st).diags@.len() + 1 && final(st).diags@.last().code@ == "KEI-E2001"@,
{
    if expected == found {
        return true;
    }
    let mut m = cat3("'", name, "' takes ");
    push_str(&mut m, u64_string(expected as u64).as_str());
    push_str(&mut m, " argument(s), found ");
    push_str(&mut m, u64_string(found as u64).as_str());
    err(cx, st, "KEI-E2001", m, s, direction(owned("Adjust the arguments")));
    false
}

/// Whether some declared effect covers `used`.
pub open spec fn covered(declared: Seq<String>, used: Seq<char>) -> bool {
    exists|i: int| 0 <= i < declared.len() && spec_covers(#[trigger] declared[i]@, used)
}

/// The used effects that no declared effect covers, in order.
pub open spec fn uncovered(declared: Seq<String>, used: Seq<String>) -> Seq<Seq<char>>
    decreases used.len(),
{
    if used.len() == 0 {
        Seq::empty()
    } else {
        uncovered(declared, used.drop_last())
            + (if covered(declared, used.last()@) { Seq::empty() } else { seq![used.last()@] })
    }
}

fn is_covered(declared: &Vec<String>, used: &str) -> (r: bool)
    ensures
        r == covered(declared@, used@),
{
    let mut i: usize = 0;
    while i < declared.len()
        invariant
            i <= declared@.len(),
            forall|k: int| 0 <= k < i ==> !spec_covers(#[trigger] declared@[k]@, used@),
        decreases declared@.len() - i,
    {
        if covers(declared[i].as_str(), used) {
            return true;
        }
        i = i + 1;
    }
    false
}

/// The diagnostics a call makes for the callee's effects.
pub open spec fn effects_checked(cx: Cx, old: Seq<Diagnostic>, new: Seq<Diagnostic>, effects: Seq<String>) -> bool {
    if cx.mode == Mode::Body {
        let missing = uncovered(cx.sig.effects@, effects);
        &&& new.len() == old.len() + missing.len()
        &&& forall|k: int| old.len() <= k < new.len() ==> (#[trigger] new[k]).code@ == "KEI-E3001"@
    } else if effects.len() > 0 {
        &&& new.len() == old.len() + 1
        &&& new.last().code@ == "KEI-E4001"@
    } else {
        new == old
    }
}

fn join_strings(v: &Vec<String>, sep: &str) -> (r: String)
    ensures
        r@ == crate::text::joined_with(crate::table::views_of(v@), sep@),
{
    let mut s = String::new();
    let mut i: usize = 0;
    while i < v.len()
        invariant
            i <= v@.len(),
            s@ == crate::text::joined_with(crate::table::views_of(v@).take(i as int), sep@),
        decreases v@.len() - i,
    {
        proof {
            assert(crate::table::views_of(v@).take(i + 1) =~= crate::table::views_of(v@).take(i as int).push(v@[i as int]@));
            crate::text::lemma_joined_push(crate::table::views_of(v@).take(i as int), v@[i as int]@, sep@);
        }
        if i > 0 {
            push_str(&mut s, sep);
        }
        push_str(&mut s, v[i].as_str());
        i = i + 1;
    }
    proof { assert(crate::table::views_of(v@).take(v@.len() as int) =~= crate::table::views_of(v@)); }
    s
}

/// Matches the effects of a callee against the caller. In the body, each
/// callee effect that no `uses` entry of the caller covers is reported
/// (`KEI-E3001`), with a fix that adds it to the clause; in a contract, a
/// callee with any effect is reported (`KEI-E4001`: contracts are pure).
pub fn check_call_effects(cx: &Cx, st: &mut FnState, effects: &Vec<String>, callee: &str, s: span::Span)
    requires
        st_ok(*cx, *old(st)),
    ensures
        st_ok(*cx, *final(st)),
        final(st).scopes == old(st).scopes,
        final(st).list_ops == old(st).list_ops,
        extends(old(st).diags@, final(st).diags@),
        effects_checked(*cx, old(st).diags@, final(st).diags@, effects@),
{
    if cx.mode == Mode::Body {
        let ghost d0 = st.diags@;
        let mut i: usize = 0;
        while i < effects.len()
            invariant
                st_ok(*cx, *st),
                st.scopes == old(st).scopes,
                st.list_ops == old(st).list_ops,
                extends(old(st).diags@, st.diags@),
                d0 == old(st).diags@,
                cx.mode == Mode::Body,
                i <= effects@.len(),
                st.diags@.len() == d0.len() + uncovered(cx.sig.effects@, effects@.take(i as int)).len(),
                forall|k: int| d0.len() <= k < st.diags@.len() ==> (#[trigger] st.diags@[k]).code@ == "KEI-E3001"@,
            decreases effects@.len() - i,
        {
            let eff = effects[i].as_str();
            assert(effects@.take(i + 1).drop_last() =~= effects@.take(i as int));
            assert(effects@.take(i + 1).last() == effects@[i as int]);
            if !is_covered(&cx.sig.effects, eff) {
                let fix = match cx.sig.uses_end {
                    Some(end) => {
                        let mut edits: Vec<TextEdit> = Vec::new();
                        edits.push(TextEdit { span: place(&cx.env.file, span::Span::point(end)), new_text: cat2(", ", eff) });
                        Fix { title: cat3("Add '", eff, "' to uses clause"), edits }
                    },
                    None => {
                        let mut t = cat3("Add 'uses ", eff, "' to '");
                        push_str(&mut t, cx.fname.as_str());
                        push_str(&mut t, "'");
                        direction(t)
                    },
                };
                let mut m = cat3("effect '", eff, "' used but not declared in 'uses' clause of '");
                push_str(&mut m, cx.fname.as_str());
                push_str(&mut m, "' (required by call to '");
                push_str(&mut m, callee);
                push_str(&mut m, "')");
                let ghost before = st.diags@;
                err(cx, st, "KEI-E3001", m, s, fix);
                assert(forall|k: int| d0.len() <= k < before.len() ==> st.diags@[k] == before[k]);
            }
            i = i + 1;
        }
        assert(effects@.take(effects@.len() as int) =~= effects@);
    } else if effects.len() > 0 {
        let mut m = cat3("call to '", callee, "' (uses ");
        push_str(&mut m, join_strings(effects, ", ").as_str());
        push_str(&mut m, ") is not allowed in a contract; contract expressions must be pure");
        err(cx, st, "KEI-E4001", m, s, direction(owned("Move the effectful call into the function body")));
    }
}

/// Warns about an external call with no `extern` declaration (`KEI-E3004`).
pub fn warn_undeclared_extern(cx: &Cx, st: &mut FnState, key: &str, s: span::Span)
    requires
        st_ok(*cx, *old(st)),
    ensures
        st_ok(*cx, *final(st)),
        final(st).scopes == old(st).scopes,
        final(st).list_ops == old(st).list_ops,
        extends(old(st).diags@, final(st).diags@),
        final(st).diags@.len() == old(st).diags@.len() + 1,
        final(st).diags@.last().code@ == "KEI-E3004"@,
        final(st).diags@.last().severity == Severity::Warning,
{
    let m = cat3("external call '", key, "' has no 'extern' declaration; its return type and effects are unverified");
    let t = cat3("Declare 'extern ", key, "(...) -> ... uses ...' to bring this external call under verification");
    warn(cx, st, "KEI-E3004", m, s, direction(t));
}

} // verus!
