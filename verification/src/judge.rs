//! The checker's type judgments that report: whether a value fits where a
//! type is expected, and whether operands fit an operator. A tagged type
//! never mixes with its base type or another tag; that confusion has a code
//! of its own (`KEI-E2005`), every other mismatch is `KEI-E2001`.
use vstd::prelude::*;
use crate::checkenv::{extends, report, reports, well_reported};
use crate::contracts::direction;
use crate::diagnostic::{Diagnostic, Fix, Severity, TextEdit};
use crate::checkenv::place;
use crate::span;
use crate::text::{cat2, cat3, cat5, owned, push_str};
use crate::types::{spec_compatible, spec_is_numeric, Ty};

verus! {

broadcast use vstd::string::group_string_axioms;

/// Placing a `found` value where `expected` is wanted mixes a tagged type
/// with its base type or with another tag.
pub open spec fn tagged_confusion(expected: Ty, found: Ty) -> bool {
    ||| (expected matches Ty::Tagged { underlying, .. } && spec_compatible(*underlying, found))
    ||| (found matches Ty::Tagged { underlying, .. } && spec_compatible(*underlying, expected))
    ||| (expected is Tagged && found is Tagged)
}

/// The mismatch is fixed by wrapping the value in `Ok(...)` or `Some(...)`.
pub open spec fn wrappable(expected: Ty, found: Ty) -> bool {
    !tagged_confusion(expected, found) && (
        (expected matches Ty::Result(ok, _) && spec_compatible(*ok, found))
        || (expected matches Ty::Option(some) && spec_compatible(*some, found)))
}

/// The code that reports a value of type `found` where `expected` is wanted.
pub open spec fn assign_code(expected: Ty, found: Ty) -> Seq<char> {
    if tagged_confusion(expected, found) { "KEI-E2005"@ } else { "KEI-E2001"@ }
}

/// The diagnostics after checking that `found` fits `expected` at `s`:
/// unchanged when the types are compatible, else one more error.
pub open spec fn assigned(old: Seq<Diagnostic>, new: Seq<Diagnostic>, file: Seq<char>, expected: Ty, found: Ty, s: span::Span) -> bool {
    &&& extends(old, new)
    &&& spec_compatible(found, expected) ==> new == old
    &&& !spec_compatible(found, expected) ==> {
        &&& new.len() == old.len() + 1
        &&& new.last().severity == Severity::Error
        &&& new.last().code@ == assign_code(expected, found)
        &&& crate::checkenv::placed(file, s, new.last().span)
        &&& new.last().fixes@.len() == 1
        &&& (wrappable(expected, found) <==> new.last().fixes@[0].edits@.len() == 2)
    }
}

fn expected_found(expected: &Ty, found: &Ty) -> (r: String) {
    let e = expected.text();
    let f = found.text();
    cat5("expected '", e.as_str(), "', found '", f.as_str(), "'")
}

/// Checks that a value of type `found` fits where `expected` is wanted.
pub fn check_assign(file: &String, diags: &mut Vec<Diagnostic>, expected: &Ty, found: &Ty, s: span::Span)
    requires
        well_reported(old(diags)@, file@),
    ensures
        well_reported(final(diags)@, file@),
        assigned(old(diags)@, final(diags)@, file@, *expected, *found, s),
{
    if found.compatible(expected) {
        return;
    }
    if let Ty::Tagged { name, underlying } = expected {
        if underlying.compatible(found) {
            let f = found.text();
            let mut m = cat5("expected '", name.as_str(), "', found '", f.as_str(), "'");
            push_str(&mut m, "; a tagged type does not mix with its base type");
            report(diags, file, Severity::Error, "KEI-E2005", m, s,
                direction(cat3("Construct a '", name.as_str(), "' value explicitly")));
            return;
        }
    }
    if let Ty::Tagged { name, underlying } = found {
        if underlying.compatible(expected) {
            let e = expected.text();
            let mut m = cat5("expected '", e.as_str(), "', found '", name.as_str(), "'");
            push_str(&mut m, "; a tagged type does not mix with its base type");
            report(diags, file, Severity::Error, "KEI-E2005", m, s,
                direction(owned("Align both sides to the same tagged type")));
            return;
        }
    }
    if let (Ty::Tagged { name: a, .. }, Ty::Tagged { name: b, .. }) = (expected, found) {
        let m = cat5("cannot use '", b.as_str(), "' where '", a.as_str(), "' is expected; distinct tagged types do not mix");
        report(diags, file, Severity::Error, "KEI-E2005", m, s, direction(cat3("Pass a '", a.as_str(), "' value instead")));
        return;
    }
    if let Ty::Result(ok, _) = expected {
        if ok.compatible(found) {
            mismatch_with_wrap(file, diags, expected, found, s, "Ok");
            return;
        }
    }
    if let Ty::Option(some) = expected {
        if some.compatible(found) {
            mismatch_with_wrap(file, diags, expected, found, s, "Some");
            return;
        }
    }
    let title = match (expected, found) {
        (Ty::Result(..), Ty::Option(..)) => owned("Use Ok/Err instead of Some/None"),
        (Ty::Option(..), Ty::Result(..)) => owned("Use Some/None instead of Ok/Err"),
        _ => {
            let e = expected.text();
            cat3("Change the expression to type '", e.as_str(), "'")
        },
    };
    report(diags, file, Severity::Error, "KEI-E2001", expected_found(expected, found), s, direction(title));
}

/// A type mismatch whose fix wraps the value in `ctor(...)`.
fn mismatch_with_wrap(file: &String, diags: &mut Vec<Diagnostic>, expected: &Ty, found: &Ty, s: span::Span, ctor: &str)
    requires
        well_reported(old(diags)@, file@),
    ensures
        well_reported(final(diags)@, file@),
        extends(old(diags)@, final(diags)@),
        final(diags)@.len() == old(diags)@.len() + 1,
        final(diags)@.last().severity == Severity::Error,
        final(diags)@.last().code@ == "KEI-E2001"@,
        crate::checkenv::placed(file@, s, final(diags)@.last().span),
        final(diags)@.last().fixes@.len() == 1,
        final(diags)@.last().fixes@[0].edits@.len() == 2,
{
    let mut edits: Vec<TextEdit> = Vec::new();
    edits.push(TextEdit { span: place(file, span::Span::point(s.start)), new_text: cat2(ctor, "(") });
    edits.push(TextEdit { span: place(file, span::Span::point(s.end)), new_text: owned(")") });
    let fix = Fix { title: cat3("Wrap the value in '", ctor, "(...)'"), edits };
    report(diags, file, Severity::Error, "KEI-E2001", expected_found(expected, found), s, fix);
}

/// Whether comparing or combining `lt` with `rt` mixes tagged types.
pub open spec fn compare_confusion(lt: Ty, rt: Ty) -> bool {
    match lt {
        Ty::Tagged { underlying, .. } => spec_compatible(*underlying, rt) || rt is Tagged,
        _ => match rt {
            Ty::Tagged { underlying, .. } => spec_compatible(*underlying, lt) || lt is Tagged,
            _ => false,
        },
    }
}

/// Reports operands that cannot be compared or combined: `KEI-E2005` when
/// tagged types are mixed, else `KEI-E2001`.
pub fn compare_mismatch(file: &String, diags: &mut Vec<Diagnostic>, lt: &Ty, rt: &Ty, s: span::Span)
    requires
        well_reported(old(diags)@, file@),
    ensures
        well_reported(final(diags)@, file@),
        extends(old(diags)@, final(diags)@),
        final(diags)@.len() == old(diags)@.len() + 1,
        final(diags)@.last().severity == Severity::Error,
        final(diags)@.last().code@ == (if compare_confusion(*lt, *rt) { "KEI-E2005"@ } else { "KEI-E2001"@ }),
        crate::checkenv::placed(file@, s, final(diags)@.last().span),
{
    let confusion = match lt {
        Ty::Tagged { underlying, .. } => underlying.compatible(rt) || matches!(rt, Ty::Tagged { .. }),
        _ => match rt {
            Ty::Tagged { underlying, .. } => underlying.compatible(lt) || matches!(lt, Ty::Tagged { .. }),
            _ => false,
        },
    };
    let l = lt.text();
    let r = rt.text();
    if confusion {
        let mut m = cat5("cannot compare '", l.as_str(), "' with '", r.as_str(), "'");
        push_str(&mut m, "; tagged types do not mix");
        report(diags, file, Severity::Error, "KEI-E2005", m, s, direction(owned("Align both sides to the same tagged type")));
    } else {
        report(diags, file, Severity::Error, "KEI-E2001", cat5("cannot compare '", l.as_str(), "' with '", r.as_str(), "'"), s,
            direction(owned("Compare values of the same type")));
    }
}

/// Checks that an operand is numeric; reports `KEI-E2001` when it is not.
pub fn expect_numeric(file: &String, diags: &mut Vec<Diagnostic>, t: &Ty, s: span::Span, what: &str) -> (ok: bool)
    requires
        well_reported(old(diags)@, file@),
    ensures
        well_reported(final(diags)@, file@),
        extends(old(diags)@, final(diags)@),
        ok == spec_is_numeric(*t),
        ok ==> final(diags)@ == old(diags)@,
        !ok ==> final(diags)@.len() == old(diags)@.len() + 1 && final(diags)@.last().code@ == "KEI-E2001"@
            && crate::checkenv::placed(file@, s, final(diags)@.last().span),
{
    if t.is_numeric() {
        return true;
    }
    let tt = t.text();
    let mut m = cat2(what, " requires Int operands, found '");
    push_str(&mut m, tt.as_str());
    push_str(&mut m, "'");
    report(diags, file, Severity::Error, "KEI-E2001", m, s, direction(owned("Use Int expressions")));
    false
}

} // verus!
