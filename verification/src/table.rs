//! Small keyed tables: a `Vec` of `(name, value)` pairs stands for a map
//! from names to values. Keys are unique when the table is only ever filled
//! through [`table_insert`], which replaces the value of a present key.
use vstd::prelude::*;
use crate::text::str_eq;

verus! {

broadcast use vstd::string::group_string_axioms;

/// The index of the first entry of `t` whose key is `k`.
pub open spec fn spec_find<V>(t: Seq<(String, V)>, k: Seq<char>) -> Option<int> {
    if exists|i: int| 0 <= i < t.len() && #[trigger] t[i].0@ == k {
        Some(choose|i: int| 0 <= i < t.len() && t[i].0@ == k && forall|j: int| 0 <= j < i ==> #[trigger] t[j].0@ != k)
    } else {
        None
    }
}

/// No key occurs twice.
pub open spec fn keys_unique<V>(t: Seq<(String, V)>) -> bool {
    forall|i: int, j: int| 0 <= i < j < t.len() ==> #[trigger] t[i].0@ != #[trigger] t[j].0@
}

/// Whether some entry has key `k`.
pub open spec fn has_key<V>(t: Seq<(String, V)>, k: Seq<char>) -> bool {
    exists|i: int| 0 <= i < t.len() && #[trigger] t[i].0@ == k
}

/// The index of the first entry whose key is `k`.
pub fn find_key<V>(t: &Vec<(String, V)>, k: &str) -> (r: Option<usize>)
    ensures
        r matches Some(i) ==> i < t@.len() && t@[i as int].0@ == k@
            && forall|j: int| 0 <= j < i ==> #[trigger] t@[j].0@ != k@,
        r is None ==> forall|j: int| 0 <= j < t@.len() ==> #[trigger] t@[j].0@ != k@,
        r is Some <==> has_key(t@, k@),
{
    let mut i: usize = 0;
    while i < t.len()
        invariant
            i <= t@.len(),
            forall|j: int| 0 <= j < i ==> #[trigger] t@[j].0@ != k@,
        decreases t@.len() - i,
    {
        if str_eq(t[i].0.as_str(), k) {
            return Some(i);
        }
        i = i + 1;
    }
    None
}

/// Sets the value of key `k`: replaces the value of the entry with that key,
/// or appends a new entry.
pub fn table_insert<V>(t: &mut Vec<(String, V)>, k: String, v: V)
    requires
        keys_unique(old(t)@),
    ensures
        keys_unique(final(t)@),
        has_key(final(t)@, k@),
        forall|i: int| 0 <= i < final(t)@.len() && final(t)@[i].0@ == k@ ==> #[trigger] final(t)@[i].1 == v,
        forall|key: Seq<char>| key != k@ ==> (has_key(final(t)@, key) <==> has_key(old(t)@, key)),
        forall|i: int| 0 <= i < old(t)@.len() && old(t)@[i].0@ != k@ ==> #[trigger] final(t)@[i] == old(t)@[i],
        forall|i: int| 0 <= i < final(t)@.len() && (#[trigger] final(t)@[i]).0@ != k@ ==> i < old(t)@.len() && final(t)@[i] == old(t)@[i],
        old(t)@.len() <= final(t)@.len() <= old(t)@.len() + 1,
        inserted(old(t)@, final(t)@, k@, v),
{
    match find_key(t, k.as_str()) {
        Some(i) => {
            let ghost before = t@;
            t.set(i, (k, v));
            assert forall|key: Seq<char>| key != k@ implies (has_key(t@, key) <==> has_key(before, key)) by {
                if has_key(before, key) {
                    let w = choose|j: int| 0 <= j < before.len() && #[trigger] before[j].0@ == key;
                    assert(t@[w].0@ == key);
                }
                if has_key(t@, key) {
                    let w = choose|j: int| 0 <= j < t@.len() && #[trigger] t@[j].0@ == key;
                    assert(before[w].0@ == key);
                }
            }
            assert(t@[i as int].0@ == k@);
        },
        None => {
            let ghost before = t@;
            t.push((k, v));
            assert(t@[before.len() as int].0@ == k@);
            assert forall|key: Seq<char>| key != k@ implies (has_key(t@, key) <==> has_key(before, key)) by {
                if has_key(before, key) {
                    let w = choose|j: int| 0 <= j < before.len() && #[trigger] before[j].0@ == key;
                    assert(t@[w].0@ == key);
                }
                if has_key(t@, key) {
                    let w = choose|j: int| 0 <= j < t@.len() && #[trigger] t@[j].0@ == key;
                    assert(before[w].0@ == key);
                }
            }
        },
    }
}

/// Whether `v` holds a string equal to `s`.
pub fn contains_str(v: &Vec<String>, s: &str) -> (r: bool)
    ensures
        r == exists|i: int| 0 <= i < v@.len() && #[trigger] v@[i]@ == s@,
{
    let mut i: usize = 0;
    while i < v.len()
        invariant
            i <= v@.len(),
            forall|j: int| 0 <= j < i ==> #[trigger] v@[j]@ != s@,
        decreases v@.len() - i,
    {
        if str_eq(v[i].as_str(), s) {
            return true;
        }
        i = i + 1;
    }
    false
}

/// The keys of a table.
pub open spec fn keys_of<V>(t: Seq<(String, V)>) -> Seq<Seq<char>> {
    t.map_values(|e: (String, V)| e.0@)
}

/// The characters of each string.
pub open spec fn views_of(v: Seq<String>) -> Seq<Seq<char>> {
    v.map_values(|s: String| s@)
}

/// A list of distinct keys of `t` is no longer than `t`.
pub proof fn lemma_distinct_keys_bound<V>(vis: Seq<Seq<char>>, t: Seq<(String, V)>)
    requires
        vis.no_duplicates(),
        forall|i: int| 0 <= i < vis.len() ==> has_key(t, #[trigger] vis[i]),
    ensures
        vis.len() <= t.len(),
{
    broadcast use vstd::seq_lib::seq_to_set_is_finite;
    let keys = keys_of(t);
    vis.unique_seq_to_set();
    keys.lemma_cardinality_of_set();
    assert forall|x: Seq<char>| vis.to_set().contains(x) implies keys.to_set().contains(x) by {
        let i = choose|i: int| 0 <= i < vis.len() && vis[i] == x;
        assert(has_key(t, vis[i]));
        let j = choose|j: int| 0 <= j < t.len() && #[trigger] t[j].0@ == x;
        assert(keys[j] == x);
    }
    vstd::set_lib::lemma_len_subset(vis.to_set(), keys.to_set());
}

/// `new` is `old` with key `k` set to `v` (what [`table_insert`] does).
pub open spec fn inserted<V>(old: Seq<(String, V)>, new: Seq<(String, V)>, k: Seq<char>, v: V) -> bool {
    &&& keys_unique(new)
    &&& old.len() <= new.len()
    &&& has_key(new, k)
    &&& forall|i: int| 0 <= i < new.len() && new[i].0@ == k ==> #[trigger] new[i].1 == v
    &&& forall|i: int| 0 <= i < new.len() && (#[trigger] new[i]).0@ != k ==> i < old.len() && new[i] == old[i]
    &&& forall|i: int| 0 <= i < old.len() && old[i].0@ != k ==> #[trigger] new[i] == old[i]
}

/// In a table with unique keys, the entry holding a key is the one found.
pub proof fn lemma_unique_find<V>(t: Seq<(String, V)>, i: int)
    requires
        keys_unique(t),
        0 <= i < t.len(),
    ensures
        spec_find(t, t[i].0@) == Some(i),
{
    let n = t[i].0@;
    assert(exists|w: int| 0 <= w < t.len() && #[trigger] t[w].0@ == n);
    let c = choose|w: int| 0 <= w < t.len() && t[w].0@ == n && forall|j: int| 0 <= j < w ==> #[trigger] t[j].0@ != n;
    if c != i {
        assert(t[c].0@ == t[i].0@);
    }
}

/// Setting key `k` leaves the lookup of every other key unchanged.
pub proof fn lemma_insert_other<V>(old: Seq<(String, V)>, new: Seq<(String, V)>, k: Seq<char>, v: V, n: Seq<char>)
    requires
        keys_unique(old),
        inserted(old, new, k, v),
        n != k,
    ensures
        spec_find(new, n) == spec_find(old, n),
        spec_find(old, n) matches Some(i) ==> new[i] == old[i],
{
    if has_key(old, n) {
        let i = choose|i: int| 0 <= i < old.len() && #[trigger] old[i].0@ == n;
        lemma_unique_find(old, i);
        assert(new[i] == old[i]);
        lemma_unique_find(new, i);
    } else if has_key(new, n) {
        let i = choose|i: int| 0 <= i < new.len() && #[trigger] new[i].0@ == n;
        assert(old[i] == new[i]);
        assert(false);
    }
}

/// After setting key `k`, the lookup of `k` finds `v`.
pub proof fn lemma_insert_same<V>(old: Seq<(String, V)>, new: Seq<(String, V)>, k: Seq<char>, v: V)
    requires
        inserted(old, new, k, v),
    ensures
        spec_find(new, k) matches Some(i) && new[i].1 == v,
{
    let i = choose|i: int| 0 <= i < new.len() && #[trigger] new[i].0@ == k;
    lemma_unique_find(new, i);
}

/// The names among the first `n` of `names` that occur for the first
/// time, in order.
pub open spec fn first_names(names: Seq<Seq<char>>, n: nat) -> Seq<Seq<char>>
    decreases n,
{
    if n == 0 || n > names.len() {
        Seq::empty()
    } else {
        let prev = first_names(names, (n - 1) as nat);
        if prev.contains(names[n - 1]) { prev } else { prev.push(names[n - 1]) }
    }
}

/// A table has a key exactly when its keys contain it.
pub proof fn lemma_has_key_keys<V>(t: Seq<(String, V)>, k: Seq<char>)
    ensures
        has_key(t, k) <==> keys_of(t).contains(k),
{
    if has_key(t, k) {
        let i = choose|i: int| 0 <= i < t.len() && #[trigger] t[i].0@ == k;
        assert(keys_of(t)[i] == k);
    }
    if keys_of(t).contains(k) {
        let i = choose|i: int| 0 <= i < keys_of(t).len() && keys_of(t)[i] == k;
        assert(t[i].0@ == k);
    }
}

/// A list of strings holds `x` exactly when its views contain it.
pub proof fn lemma_views_contains(v: Seq<String>, x: Seq<char>)
    ensures
        views_of(v).contains(x) <==> exists|i: int| 0 <= i < v.len() && #[trigger] v[i]@ == x,
{
    if views_of(v).contains(x) {
        let i = choose|i: int| 0 <= i < views_of(v).len() && views_of(v)[i] == x;
        assert(v[i]@ == x);
    }
    if exists|i: int| 0 <= i < v.len() && #[trigger] v[i]@ == x {
        let i = choose|i: int| 0 <= i < v.len() && #[trigger] v[i]@ == x;
        assert(views_of(v)[i] == x);
    }
}

/// A name is among the first-occurrence names exactly when it occurs.
pub proof fn lemma_first_names_contains(names: Seq<Seq<char>>, n: nat, x: Seq<char>)
    requires
        n <= names.len(),
    ensures
        first_names(names, n).contains(x) <==> exists|j: int| 0 <= j < n && #[trigger] names[j] == x,
    decreases n,
{
    if n > 0 {
        lemma_first_names_contains(names, (n - 1) as nat, x);
        let prev = first_names(names, (n - 1) as nat);
        if !prev.contains(names[n - 1]) {
            let ps = prev.push(names[n - 1]);
            if ps.contains(x) && x != names[n - 1] {
                let w = choose|w: int| 0 <= w < ps.len() && #[trigger] ps[w] == x;
                assert(prev[w] == x);
            }
            if prev.contains(x) {
                let w = choose|w: int| 0 <= w < prev.len() && #[trigger] prev[w] == x;
                assert(ps[w] == x);
            }
            if x == names[n - 1] {
                assert(ps[prev.len() as int] == x);
            }
        }
        if exists|j: int| 0 <= j < n && #[trigger] names[j] == x {
            let j = choose|j: int| 0 <= j < n && #[trigger] names[j] == x;
            if j < n - 1 {
                assert(exists|j2: int| 0 <= j2 < n - 1 && #[trigger] names[j2] == x);
            }
        }
    }
}

} // verus!
