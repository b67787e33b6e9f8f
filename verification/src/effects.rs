//! The standard effect hierarchy and its containment relation. `IO` is the
//! root: declaring it allows every effect.
use vstd::prelude::*;
use crate::text::{chars_of, is_prefix, str_eq};

verus! {

broadcast use vstd::string::group_string_axioms;

/// Whether `p` names a node of the standard effect hierarchy.
pub open spec fn spec_is_known(p: Seq<char>) -> bool {
    p == "IO"@ || p == "Network"@ || p == "Network.Read"@ || p == "Network.Write"@
        || p == "File"@ || p == "File.Read"@ || p == "File.Write"@ || p == "Database"@
        || p == "Database.Read"@ || p == "Database.Write"@ || p == "Clock"@ || p == "Random"@
        || p == "Audit"@ || p == "Audit.Log"@
}

/// Whether `path` names a node of the standard effect hierarchy.
pub fn is_known(path: &str) -> (r: bool)
    ensures
        r == spec_is_known(path@),
{
    str_eq(path, "IO") || str_eq(path, "Network") || str_eq(path, "Network.Read")
        || str_eq(path, "Network.Write") || str_eq(path, "File") || str_eq(path, "File.Read")
        || str_eq(path, "File.Write") || str_eq(path, "Database") || str_eq(path, "Database.Read")
        || str_eq(path, "Database.Write") || str_eq(path, "Clock") || str_eq(path, "Random")
        || str_eq(path, "Audit") || str_eq(path, "Audit.Log")
}

/// A declared effect covers a used one when they are equal, when the
/// declared one is `IO`, or when the declared one is an ancestor of the used
/// one (the used path continues the declared path after a `.`).
pub open spec fn spec_covers(declared: Seq<char>, used: Seq<char>) -> bool {
    declared == used || declared == "IO"@
        || (used.len() > declared.len() && is_prefix(declared, used) && used[declared.len() as int] == '.')
}

/// Whether declaring `declared` allows using `used`.
pub fn covers(declared: &str, used: &str) -> (r: bool)
    ensures
        r == spec_covers(declared@, used@),
{
    if str_eq(declared, used) || str_eq(declared, "IO") {
        return true;
    }
    let d = chars_of(declared);
    let u = chars_of(used);
    u.len() > d.len() && crate::text::chars_starts_with(&u, &d) && u[d.len()] == '.'
}

/// Every effect covers itself, and `IO` covers every effect.
pub proof fn law_covers_reflexive_and_root(e: Seq<char>)
    ensures
        spec_covers(e, e),
        spec_covers("IO"@, e),
{
}

/// Containment is transitive: a declaration that covers an effect also covers
/// everything that effect covers.
pub proof fn law_covers_transitive(a: Seq<char>, b: Seq<char>, c: Seq<char>)
    requires
        spec_covers(a, b),
        spec_covers(b, c),
    ensures
        spec_covers(a, c),
{
    reveal_strlit("IO");
    if a == "IO"@ || a == b || b == c {
    } else if b == "IO"@ {
        // `a` would be a proper prefix of "IO" followed by '.', which "IO" has not.
        assert(b[a.len() as int] == '.');
        assert(false);
    } else {
        assert(c.take(a.len() as int) =~= c.take(b.len() as int).take(a.len() as int));
        assert(c[a.len() as int] == c.take(b.len() as int)[a.len() as int]);
    }
}

/// The nodes of the standard effect hierarchy.
pub fn standard_effects() -> (r: Vec<String>)
    ensures
        forall|i: int| 0 <= i < r@.len() ==> spec_is_known(#[trigger] r@[i]@),
        forall|p: Seq<char>| spec_is_known(p) ==> exists|i: int| 0 <= i < r@.len() && #[trigger] r@[i]@ == p,
{
    let mut r: Vec<String> = Vec::new();
    r.push(String::from_str("IO"));
    r.push(String::from_str("Network"));
    r.push(String::from_str("Network.Read"));
    r.push(String::from_str("Network.Write"));
    r.push(String::from_str("File"));
    r.push(String::from_str("File.Read"));
    r.push(String::from_str("File.Write"));
    r.push(String::from_str("Database"));
    r.push(String::from_str("Database.Read"));
    r.push(String::from_str("Database.Write"));
    r.push(String::from_str("Clock"));
    r.push(String::from_str("Random"));
    r.push(String::from_str("Audit"));
    r.push(String::from_str("Audit.Log"));
    proof {
        assert forall|p: Seq<char>| spec_is_known(p) implies exists|i: int| 0 <= i < r@.len() && #[trigger] r@[i]@ == p by {
            if p == "IO"@ { assert(r@[0]@ == p); }
            else if p == "Network"@ { assert(r@[1]@ == p); }
            else if p == "Network.Read"@ { assert(r@[2]@ == p); }
            else if p == "Network.Write"@ { assert(r@[3]@ == p); }
            else if p == "File"@ { assert(r@[4]@ == p); }
            else if p == "File.Read"@ { assert(r@[5]@ == p); }
            else if p == "File.Write"@ { assert(r@[6]@ == p); }
            else if p == "Database"@ { assert(r@[7]@ == p); }
            else if p == "Database.Read"@ { assert(r@[8]@ == p); }
            else if p == "Database.Write"@ { assert(r@[9]@ == p); }
            else if p == "Clock"@ { assert(r@[10]@ == p); }
            else if p == "Random"@ { assert(r@[11]@ == p); }
            else if p == "Audit"@ { assert(r@[12]@ == p); }
            else { assert(r@[13]@ == p); }
        }
    }
    r
}

} // verus!
