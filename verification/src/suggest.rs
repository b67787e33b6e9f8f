//! "Did you mean" suggestions: the closest candidate within edit distance 2.
use vstd::prelude::*;
use crate::edit::{edit_distance, levenshtein};
use crate::text::{chars_of, str_eq};

verus! {

broadcast use vstd::string::group_string_axioms;

/// Lexicographic order of character sequences by scalar value (the order of
/// `<` on Rust strings).
pub open spec fn seq_lt(a: Seq<char>, b: Seq<char>) -> bool
    decreases a.len(),
{
    if a.len() == 0 {
        b.len() > 0
    } else if b.len() == 0 {
        false
    } else if a[0] != b[0] {
        (a[0] as u32) < (b[0] as u32)
    } else {
        seq_lt(a.drop_first(), b.drop_first())
    }
}

/// The order is transitive.
pub proof fn lemma_seq_lt_transitive(a: Seq<char>, b: Seq<char>, c: Seq<char>)
    requires
        seq_lt(a, b),
        seq_lt(b, c),
    ensures
        seq_lt(a, c),
    decreases a.len(),
{
    if a.len() > 0 && b.len() > 0 && c.len() > 0 && a[0] == b[0] && b[0] == c[0] {
        lemma_seq_lt_transitive(a.drop_first(), b.drop_first(), c.drop_first());
    }
}

/// The order is total: of two different sequences one comes first.
pub proof fn lemma_seq_lt_total(a: Seq<char>, b: Seq<char>)
    requires
        a != b,
    ensures
        seq_lt(a, b) || seq_lt(b, a),
    decreases a.len(),
{
    if a.len() > 0 && b.len() > 0 && a[0] == b[0] {
        if a.drop_first() == b.drop_first() {
            assert(a =~= seq![a[0]] + a.drop_first());
            assert(b =~= seq![b[0]] + b.drop_first());
        }
        lemma_seq_lt_total(a.drop_first(), b.drop_first());
    } else if a.len() > 0 && b.len() > 0 {
        let x = a[0] as u32;
        let y = b[0] as u32;
        assert(x != y) by {
            vstd::utf8::char_u32_cast(a[0], x);
            vstd::utf8::char_u32_cast(b[0], y);
        }
    } else if a.len() == 0 && b.len() == 0 {
        assert(a =~= b);
    }
}

/// The order is asymmetric.
pub proof fn lemma_seq_lt_asymmetric(a: Seq<char>, b: Seq<char>)
    requires
        seq_lt(a, b),
    ensures
        !seq_lt(b, a),
    decreases a.len(),
{
    if a.len() > 0 && b.len() > 0 && a[0] == b[0] {
        lemma_seq_lt_asymmetric(a.drop_first(), b.drop_first());
    }
}

/// The order is irreflexive.
pub proof fn lemma_seq_lt_irreflexive(a: Seq<char>)
    ensures
        !seq_lt(a, a),
    decreases a.len(),
{
    if a.len() > 0 {
        lemma_seq_lt_irreflexive(a.drop_first());
    }
}

/// Whether `a < b` as strings.
pub fn str_lt(a: &str, b: &str) -> (r: bool)
    ensures
        r == seq_lt(a@, b@),
{
    let x = chars_of(a);
    let y = chars_of(b);
    let mut i: usize = 0;
    assert(x@.subrange(0, x@.len() as int) =~= x@);
    assert(y@.subrange(0, y@.len() as int) =~= y@);
    while i < x.len() && i < y.len()
        invariant
            i <= x@.len(),
            i <= y@.len(),
            x@ == a@,
            y@ == b@,
            x@.subrange(0, i as int) == y@.subrange(0, i as int),
            seq_lt(x@, y@) == seq_lt(x@.subrange(i as int, x@.len() as int), y@.subrange(i as int, y@.len() as int)),
        decreases x@.len() - i,
    {
        if x[i] != y[i] {
            assert(x@.subrange(i as int, x@.len() as int)[0] == x@[i as int]);
            assert(y@.subrange(i as int, y@.len() as int)[0] == y@[i as int]);
            let xi = x[i] as u32;
            let yi = y[i] as u32;
            proof {
                let xs = x@.subrange(i as int, x@.len() as int);
                let ys = y@.subrange(i as int, y@.len() as int);
                assert(xs.len() > 0 && ys.len() > 0 && xs[0] != ys[0]);
                assert(seq_lt(xs, ys) == ((xs[0] as u32) < (ys[0] as u32)));
                assert(xi == (x@[i as int] as u32));
                assert(yi == (y@[i as int] as u32));
                assert(xs[0] == x@[i as int] && ys[0] == y@[i as int]);
                assert(seq_lt(x@, y@) == (xi < yi));
            }
            return xi < yi;
        }
        assert(x@.subrange(i as int, x@.len() as int).drop_first() =~= x@.subrange(i + 1, x@.len() as int));
        assert(y@.subrange(i as int, y@.len() as int).drop_first() =~= y@.subrange(i + 1, y@.len() as int));
        assert(x@.subrange(0, i + 1) =~= x@.subrange(0, i as int).push(x@[i as int]));
        assert(y@.subrange(0, i + 1) =~= y@.subrange(0, i as int).push(y@[i as int]));
        i = i + 1;
    }
    assert(i == x@.len() ==> x@.subrange(i as int, x@.len() as int).len() == 0);
    assert(i == y@.len() ==> y@.subrange(i as int, y@.len() as int).len() == 0);
    i < y.len()
}

/// Whether `c` may be suggested for `name`: another name within distance 2,
/// closer than the length of `name`.
pub open spec fn eligible(name: Seq<char>, c: Seq<char>) -> bool {
    &&& c != name
    &&& name.len() + c.len() < usize::MAX
    &&& edit_distance(name, c) <= 2
    &&& edit_distance(name, c) < name.len()
}

/// Whether `c` is a better suggestion for `name` than `d`: closer, or as
/// close and earlier in string order.
pub open spec fn better(name: Seq<char>, c: Seq<char>, d: Seq<char>) -> bool {
    edit_distance(name, c) < edit_distance(name, d)
        || (edit_distance(name, c) == edit_distance(name, d) && seq_lt(c, d))
}

/// The best eligible candidate, if any: no eligible candidate is better.
/// (Names so long that two of them do not fit in memory are never
/// candidates.)
pub fn suggestion(name: &str, candidates: &Vec<String>) -> (r: Option<String>)
    ensures
        r is None <==> forall|i: int| 0 <= i < candidates@.len() ==> !eligible(name@, #[trigger] candidates@[i]@),
        r matches Some(s) ==> {
            &&& exists|i: int| 0 <= i < candidates@.len() && #[trigger] candidates@[i]@ == s@
            &&& eligible(name@, s@)
            &&& forall|i: int| 0 <= i < candidates@.len() && eligible(name@, #[trigger] candidates@[i]@)
                    ==> !better(name@, candidates@[i]@, s@)
        },
{
    let n = chars_of(name).len();
    let mut best: Option<(usize, usize)> = None;
    let mut i: usize = 0;
    while i < candidates.len()
        invariant
            i <= candidates@.len(),
            n == name@.len(),
            best is None ==> forall|j: int| 0 <= j < i ==> !eligible(name@, #[trigger] candidates@[j]@),
            best matches Some((bd, bi)) ==> {
                &&& bi < i
                &&& eligible(name@, candidates@[bi as int]@)
                &&& bd == edit_distance(name@, candidates@[bi as int]@)
                &&& forall|j: int| 0 <= j < i && eligible(name@, #[trigger] candidates@[j]@)
                        ==> !better(name@, candidates@[j]@, candidates@[bi as int]@)
            },
        decreases candidates@.len() - i,
    {
        let c = candidates[i].as_str();
        if !str_eq(c, name) {
            let m = chars_of(c).len();
            if n < usize::MAX - m {
                let d = levenshtein(name, c);
                if d <= 2 && d < n {
                    let take = match best {
                        None => true,
                        Some((bd, bi)) => d < bd || (d == bd && str_lt(c, candidates[bi].as_str())),
                    };
                    if take {
                        proof {
                            if let Some((bd, bi)) = best {
                                let cb = candidates@[bi as int]@;
                                assert forall|j: int| 0 <= j < i + 1 && eligible(name@, #[trigger] candidates@[j]@)
                                    implies !better(name@, candidates@[j]@, c@) by {
                                    if j < i && better(name@, candidates@[j]@, c@) {
                                        if edit_distance(name@, candidates@[j]@) == edit_distance(name@, c@)
                                            && edit_distance(name@, c@) == bd {
                                            lemma_seq_lt_transitive(candidates@[j]@, c@, cb);
                                        }
                                    }
                                    if j == i {
                                        lemma_seq_lt_irreflexive(c@);
                                    }
                                }
                            } else {
                                assert forall|j: int| 0 <= j < i + 1 && eligible(name@, #[trigger] candidates@[j]@)
                                    implies !better(name@, candidates@[j]@, c@) by {
                                    if j == i {
                                        lemma_seq_lt_irreflexive(c@);
                                    }
                                }
                            }
                        }
                        best = Some((d, i));
                    } else {
                        proof {
                            if let Some((bd, bi)) = best {
                                assert(!better(name@, c@, candidates@[bi as int]@));
                            }
                        }
                    }
                }
            }
        }
        i = i + 1;
    }
    match best {
        None => None,
        Some((_, bi)) => Some(candidates[bi].clone()),
    }
}

} // verus!
