//! Edit distance (Levenshtein), used for "did you mean" suggestions.
use vstd::prelude::*;
use crate::text::chars_of;

verus! {

pub open spec fn min3(x: nat, y: nat, z: nat) -> nat {
    if x <= y && x <= z { x } else if y <= z { y } else { z }
}

/// The least number of single-character insertions, deletions and
/// substitutions that turn `a` into `b`.
pub open spec fn edit_distance(a: Seq<char>, b: Seq<char>) -> nat
    decreases a.len() + b.len(),
{
    if a.len() == 0 {
        b.len()
    } else if b.len() == 0 {
        a.len()
    } else {
        min3(
            edit_distance(a.drop_last(), b.drop_last()) + (if a.last() == b.last() { 0nat } else { 1nat }),
            edit_distance(a.drop_last(), b) + 1,
            edit_distance(a, b.drop_last()) + 1,
        )
    }
}

proof fn lemma_edit_distance_bound(a: Seq<char>, b: Seq<char>)
    ensures
        edit_distance(a, b) <= a.len() + b.len(),
    decreases a.len() + b.len(),
{
    if a.len() > 0 && b.len() > 0 {
        lemma_edit_distance_bound(a.drop_last(), b);
    }
}

/// Turning `a` into `b` takes at least as many edits as `a` is longer than `b`.
pub proof fn lemma_edit_distance_lower_bound(a: Seq<char>, b: Seq<char>)
    ensures
        edit_distance(a, b) >= a.len() - b.len(),
    decreases a.len() + b.len(),
{
    if a.len() > 0 && b.len() > 0 {
        lemma_edit_distance_lower_bound(a.drop_last(), b.drop_last());
        lemma_edit_distance_lower_bound(a.drop_last(), b);
        lemma_edit_distance_lower_bound(a, b.drop_last());
    }
}

/// The edit distance between the characters of `a` and of `b`.
pub fn levenshtein(a: &str, b: &str) -> (d: usize)
    requires
        a@.len() + b@.len() < usize::MAX,
    ensures
        d == edit_distance(a@, b@),
{
    let av = chars_of(a);
    let bv = chars_of(b);
    levenshtein_chars(&av, &bv)
}

/// The edit distance between two character vectors.
pub fn levenshtein_chars(a: &Vec<char>, b: &Vec<char>) -> (d: usize)
    requires
        a@.len() + b@.len() < usize::MAX,
    ensures
        d == edit_distance(a@, b@),
{
    let n = a.len();
    let m = b.len();
    // prev[j] = edit_distance(a[..i], b[..j])
    let mut prev: Vec<usize> = Vec::new();
    let mut j: usize = 0;
    while j <= m
        invariant
            j <= m + 1,
            m == b@.len(),
            n == a@.len(),
            n + m < usize::MAX,
            prev@.len() == j,
            forall|k: int| 0 <= k < j ==> prev@[k] == edit_distance(a@.take(0), b@.take(k)),
        decreases m + 1 - j,
    {
        proof {
            assert(a@.take(0).len() == 0);
        }
        prev.push(j);
        j = j + 1;
    }
    let mut i: usize = 0;
    while i < n
        invariant
            i <= n,
            m == b@.len(),
            n == a@.len(),
            n + m < usize::MAX,
            prev@.len() == m + 1,
            forall|k: int| 0 <= k <= m ==> prev@[k] == edit_distance(a@.take(i as int), b@.take(k)),
        decreases n - i,
    {
        let mut cur: Vec<usize> = Vec::new();
        proof {
            lemma_edit_distance_bound(a@.take(i + 1), b@.take(0));
            assert(a@.take(i + 1).len() == i + 1);
        }
        cur.push(i + 1);
        let mut jj: usize = 0;
        while jj < m
            invariant
                i < n,
                m == b@.len(),
                n == a@.len(),
                n + m < usize::MAX,
                jj <= m,
                prev@.len() == m + 1,
                cur@.len() == jj + 1,
                forall|k: int| 0 <= k <= m ==> prev@[k] == edit_distance(a@.take(i as int), b@.take(k)),
                forall|k: int| 0 <= k <= jj ==> cur@[k] == edit_distance(a@.take(i + 1), b@.take(k)),
            decreases m - jj,
        {
            let cost: usize = if a[i] != b[jj] { 1 } else { 0 };
            proof {
                let aa = a@.take(i + 1);
                let bb = b@.take(jj + 1);
                assert(aa.drop_last() =~= a@.take(i as int));
                assert(bb.drop_last() =~= b@.take(jj as int));
                assert(aa.last() == a@[i as int]);
                assert(bb.last() == b@[jj as int]);
                lemma_edit_distance_bound(a@.take(i as int), b@.take(jj as int));
                lemma_edit_distance_bound(a@.take(i as int), b@.take(jj + 1));
                lemma_edit_distance_bound(aa, b@.take(jj as int));
            }
            let x = prev[jj] + cost;
            let y = prev[jj + 1] + 1;
            let z = cur[jj] + 1;
            let best = if x <= y && x <= z { x } else if y <= z { y } else { z };
            cur.push(best);
            jj = jj + 1;
        }
        prev = cur;
        i = i + 1;
    }
    proof {
        assert(a@.take(n as int) =~= a@);
        assert(b@.take(m as int) =~= b@);
    }
    prev[m]
}

/// A text is at distance zero from itself.
pub proof fn law_edit_distance_identity(a: Seq<char>)
    ensures
        edit_distance(a, a) == 0,
    decreases a.len(),
{
    if a.len() > 0 {
        law_edit_distance_identity(a.drop_last());
    }
}

} // verus!
