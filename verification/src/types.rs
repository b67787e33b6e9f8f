//! The checker's type representation: the resolved form of a type reference.
//! `Unknown` stands for a type a single-file check cannot resolve (an import,
//! for instance); it is compatible with everything, which also stops error
//! cascades.
use vstd::prelude::*;
use crate::text::{owned, push_str};

verus! {

#[derive(Debug, PartialEq, Eq)]
pub enum Ty {
    Int,
    Str,
    Bool,
    /// The result of a function that returns nothing; no source syntax.
    Unit,
    Record(String),
    Enum(String),
    /// A phantom type such as `type AccountId = String tagged "AccountId"`:
    /// compatible only with the same tag, never with its underlying type.
    Tagged { name: String, underlying: Box<Ty> },
    Result(Box<Ty>, Box<Ty>),
    Option(Box<Ty>),
    List(Box<Ty>),
    Unknown,
}

/// Compatibility; `Unknown` is compatible with every type.
pub open spec fn spec_compatible(a: Ty, b: Ty) -> bool
    decreases a,
{
    match (a, b) {
        (Ty::Unknown, _) => true,
        (_, Ty::Unknown) => true,
        (Ty::Int, Ty::Int) => true,
        (Ty::Str, Ty::Str) => true,
        (Ty::Bool, Ty::Bool) => true,
        (Ty::Unit, Ty::Unit) => true,
        (Ty::Record(x), Ty::Record(y)) => x@ == y@,
        (Ty::Enum(x), Ty::Enum(y)) => x@ == y@,
        (Ty::Tagged { name: x, .. }, Ty::Tagged { name: y, .. }) => x@ == y@,
        (Ty::Result(o1, e1), Ty::Result(o2, e2)) => spec_compatible(*o1, *o2) && spec_compatible(*e1, *e2),
        (Ty::Option(x), Ty::Option(y)) => spec_compatible(*x, *y),
        (Ty::List(x), Ty::List(y)) => spec_compatible(*x, *y),
        _ => false,
    }
}

/// Whether a type can take part in arithmetic and ordering: `Int`, `Unknown`,
/// or a tagged type over a numeric type.
pub open spec fn spec_is_numeric(t: Ty) -> bool
    decreases t,
{
    match t {
        Ty::Int | Ty::Unknown => true,
        Ty::Tagged { underlying, .. } => spec_is_numeric(*underlying),
        _ => false,
    }
}

/// Whether `==` / `!=` are supported: scalars and tagged scalars only.
pub open spec fn spec_is_equatable(t: Ty) -> bool
    decreases t,
{
    match t {
        Ty::Int | Ty::Str | Ty::Bool | Ty::Unknown => true,
        Ty::Tagged { underlying, .. } => spec_is_equatable(*underlying),
        _ => false,
    }
}

/// The display text of a type, as it appears in messages.
pub open spec fn spec_ty_text(t: Ty) -> Seq<char>
    decreases t,
{
    match t {
        Ty::Int => "Int"@,
        Ty::Str => "String"@,
        Ty::Bool => "Bool"@,
        Ty::Unit => "Unit"@,
        Ty::Record(n) => n@,
        Ty::Enum(n) => n@,
        Ty::Tagged { name, .. } => name@,
        Ty::Result(o, e) => "Result<"@ + spec_ty_text(*o) + ", "@ + spec_ty_text(*e) + ">"@,
        Ty::Option(x) => "Option<"@ + spec_ty_text(*x) + ">"@,
        Ty::List(x) => "List<"@ + spec_ty_text(*x) + ">"@,
        Ty::Unknown => "_"@,
    }
}

impl Ty {
    /// Compatibility; `Unknown` is compatible with every type.
    pub fn compatible(&self, other: &Ty) -> (r: bool)
        ensures
            r == spec_compatible(*self, *other),
        decreases self,
    {
        match (self, other) {
            (Ty::Unknown, _) => true,
            (_, Ty::Unknown) => true,
            (Ty::Int, Ty::Int) => true,
            (Ty::Str, Ty::Str) => true,
            (Ty::Bool, Ty::Bool) => true,
            (Ty::Unit, Ty::Unit) => true,
            (Ty::Record(x), Ty::Record(y)) => *x == *y,
            (Ty::Enum(x), Ty::Enum(y)) => *x == *y,
            (Ty::Tagged { name: x, .. }, Ty::Tagged { name: y, .. }) => *x == *y,
            (Ty::Result(o1, e1), Ty::Result(o2, e2)) => o1.compatible(o2) && e1.compatible(e2),
            (Ty::Option(x), Ty::Option(y)) => x.compatible(y),
            (Ty::List(x), Ty::List(y)) => x.compatible(y),
            _ => false,
        }
    }

    /// Whether the type can take part in arithmetic and ordering comparisons.
    pub fn is_numeric(&self) -> (r: bool)
        ensures
            r == spec_is_numeric(*self),
        decreases self,
    {
        match self {
            Ty::Int | Ty::Unknown => true,
            Ty::Tagged { underlying, .. } => underlying.is_numeric(),
            _ => false,
        }
    }

    /// Whether `==` / `!=` are supported on the type.
    pub fn is_equatable(&self) -> (r: bool)
        ensures
            r == spec_is_equatable(*self),
        decreases self,
    {
        match self {
            Ty::Int | Ty::Str | Ty::Bool | Ty::Unknown => true,
            Ty::Tagged { underlying, .. } => underlying.is_equatable(),
            _ => false,
        }
    }

    /// A deep copy.
    pub fn duplicate(&self) -> (r: Ty)
        ensures
            r == *self,
        decreases self,
    {
        match self {
            Ty::Int => Ty::Int,
            Ty::Str => Ty::Str,
            Ty::Bool => Ty::Bool,
            Ty::Unit => Ty::Unit,
            Ty::Record(n) => Ty::Record(n.clone()),
            Ty::Enum(n) => Ty::Enum(n.clone()),
            Ty::Tagged { name, underlying } => Ty::Tagged { name: name.clone(), underlying: Box::new(underlying.duplicate()) },
            Ty::Result(o, e) => Ty::Result(Box::new(o.duplicate()), Box::new(e.duplicate())),
            Ty::Option(x) => Ty::Option(Box::new(x.duplicate())),
            Ty::List(x) => Ty::List(Box::new(x.duplicate())),
            Ty::Unknown => Ty::Unknown,
        }
    }

    /// The display text of the type.
    pub fn text(&self) -> (r: String)
        ensures
            r@ == spec_ty_text(*self),
    {
        let mut s = String::new();
        self.push_text(&mut s);
        assert(Seq::<char>::empty() + spec_ty_text(*self) =~= spec_ty_text(*self));
        s
    }

    fn push_text(&self, s: &mut String)
        ensures
            final(s)@ == old(s)@ + spec_ty_text(*self),
        decreases self,
    {
        match self {
            Ty::Int => push_str(s, "Int"),
            Ty::Str => push_str(s, "String"),
            Ty::Bool => push_str(s, "Bool"),
            Ty::Unit => push_str(s, "Unit"),
            Ty::Record(n) => push_str(s, n.as_str()),
            Ty::Enum(n) => push_str(s, n.as_str()),
            Ty::Tagged { name, .. } => push_str(s, name.as_str()),
            Ty::Result(o, e) => {
                let ghost s0 = s@;
                push_str(s, "Result<");
                o.push_text(s);
                push_str(s, ", ");
                e.push_text(s);
                push_str(s, ">");
                assert(s@ =~= s0 + ("Result<"@ + spec_ty_text(**o) + ", "@ + spec_ty_text(**e) + ">"@));
            },
            Ty::Option(x) => {
                let ghost s0 = s@;
                push_str(s, "Option<");
                x.push_text(s);
                push_str(s, ">");
                assert(s@ =~= s0 + ("Option<"@ + spec_ty_text(**x) + ">"@));
            },
            Ty::List(x) => {
                let ghost s0 = s@;
                push_str(s, "List<");
                x.push_text(s);
                push_str(s, ">");
                assert(s@ =~= s0 + ("List<"@ + spec_ty_text(**x) + ">"@));
            },
            Ty::Unknown => push_str(s, "_"),
        }
    }
}

/// Compatibility is symmetric.
pub proof fn law_compatible_symmetric(a: Ty, b: Ty)
    ensures
        spec_compatible(a, b) == spec_compatible(b, a),
    decreases a,
{
    match (a, b) {
        (Ty::Result(o1, e1), Ty::Result(o2, e2)) => {
            law_compatible_symmetric(*o1, *o2);
            law_compatible_symmetric(*e1, *e2);
        },
        (Ty::Option(x), Ty::Option(y)) => law_compatible_symmetric(*x, *y),
        (Ty::List(x), Ty::List(y)) => law_compatible_symmetric(*x, *y),
        _ => {},
    }
}

/// Every type is compatible with itself.
pub proof fn law_compatible_reflexive(a: Ty)
    ensures
        spec_compatible(a, a),
    decreases a,
{
    match a {
        Ty::Result(o, e) => {
            law_compatible_reflexive(*o);
            law_compatible_reflexive(*e);
        },
        Ty::Option(x) => law_compatible_reflexive(*x),
        Ty::List(x) => law_compatible_reflexive(*x),
        _ => {},
    }
}

/// Distinct tags do not mix: two tagged types are compatible exactly when
/// their tag names are equal, whatever they are built on, and a tagged type is
/// never compatible with an untagged type other than `Unknown` (not even its
/// own underlying type).
pub proof fn law_tagged_compatible_only_with_same_tag(x: String, ux: Ty, y: String, uy: Ty, other: Ty)
    ensures
        spec_compatible(Ty::Tagged { name: x, underlying: Box::new(ux) }, Ty::Tagged { name: y, underlying: Box::new(uy) })
            <==> x@ == y@,
        !(other is Tagged) && !(other is Unknown) ==>
            !spec_compatible(Ty::Tagged { name: x, underlying: Box::new(ux) }, other)
            && !spec_compatible(other, Ty::Tagged { name: x, underlying: Box::new(ux) }),
{
}

/// Named types match by name: two record types (or two enum types) are
/// compatible exactly when their names are equal, and a record type is never
/// compatible with an enum type.
pub proof fn law_named_compatible_by_name(x: String, y: String)
    ensures
        spec_compatible(Ty::Record(x), Ty::Record(y)) <==> x@ == y@,
        spec_compatible(Ty::Enum(x), Ty::Enum(y)) <==> x@ == y@,
        !spec_compatible(Ty::Record(x), Ty::Enum(y)),
{
}

} // verus!
