//! Path handling for the command line, over `/`-separated paths: the project
//! root implied by a `module a.b.c` declaration, input paths relative to a
//! build directory, and removal of the source-map comment from emitted code.
use vstd::prelude::*;
use crate::ast::Module;
use crate::text::{chars_eq, chars_of, chars_starts_with, is_prefix, lines, push_char, push_chars, split_lines, string_of};

verus! {

broadcast use vstd::string::group_string_axioms;

/// The end of the path segment starting at `i`.
pub open spec fn seg_end(s: Seq<char>, i: int) -> int
    decreases s.len() - i,
{
    if i >= s.len() { s.len() as int } else if s[i] == '/' { i } else { seg_end(s, i + 1) }
}

pub proof fn lemma_seg_end(s: Seq<char>, i: int)
    requires
        0 <= i <= s.len(),
    ensures
        i <= seg_end(s, i) <= s.len(),
        seg_end(s, i) < s.len() ==> s[seg_end(s, i)] == '/',
    decreases s.len() - i,
{
    if i < s.len() && s[i] != '/' {
        lemma_seg_end(s, i + 1);
    }
}

/// The normal components of `s[i..]`: segments between `/`, without empty
/// and `.` segments.
pub open spec fn normal_components(s: Seq<char>, i: int) -> Seq<Seq<char>>
    decreases s.len() + 1 - i,
{
    if i < 0 || i >= s.len() {
        Seq::empty()
    } else {
        let e = seg_end(s, i);
        proof {
            lemma_seg_end(s, i);
        }
        let seg = s.subrange(i, e);
        let rest = normal_components(s, e + 1);
        if seg.len() == 0 || seg == seq!['.'] { rest } else { seq![seg] + rest }
    }
}

/// The components of a path: the root `/` first for an absolute path.
pub open spec fn components(s: Seq<char>) -> Seq<Seq<char>> {
    if s.len() > 0 && s[0] == '/' {
        seq![seq!['/']] + normal_components(s, 0)
    } else {
        normal_components(s, 0)
    }
}

/// A path made of `comps`, joined with `/` (the root needs no separator).
pub open spec fn join_components(comps: Seq<Seq<char>>) -> Seq<char>
    decreases comps.len(),
{
    if comps.len() == 0 {
        Seq::empty()
    } else if comps.len() == 1 {
        comps[0]
    } else {
        let init = join_components(comps.drop_last());
        if comps.drop_last() == seq![seq!['/']] { init + comps.last() } else { init + seq!['/'] + comps.last() }
    }
}

/// The index of the last `.` in `s`, if any.
pub open spec fn last_dot(s: Seq<char>, i: int) -> Option<int>
    decreases i,
{
    if i <= 0 {
        None
    } else if s[i - 1] == '.' {
        Some(i - 1)
    } else {
        last_dot(s, i - 1)
    }
}

/// A file name without its extension (`c.kei` -> `c`; a leading dot is not
/// an extension separator).
pub open spec fn file_stem(name: Seq<char>) -> Seq<char> {
    if name == seq!['.', '.'] {
        name
    } else {
        match last_dot(name, name.len() as int) {
            Some(k) => if k == 0 { name } else { name.subrange(0, k) },
            None => name,
        }
    }
}

/// Splits a path into its components.
pub fn path_components(p: &str) -> (r: Vec<Vec<char>>)
    ensures
        r@.map_values(|c: Vec<char>| c@) == components(p@),
{
    let cs = chars_of(p);
    let ghost sv = p@;
    let n = cs.len();
    let mut out: Vec<Vec<char>> = Vec::new();
    let ghost abs = n > 0 && sv[0] == '/';
    if n > 0 && cs[0] == '/' {
        let mut root: Vec<char> = Vec::new();
        root.push('/');
        out.push(root);
    }
    let ghost prefix = out@.map_values(|c: Vec<char>| c@);
    assert(prefix + normal_components(sv, 0) =~= components(sv));
    let mut i: usize = 0;
    while i < n
        invariant
            cs@ == sv,
            n == sv.len(),
            i <= n,
            out@.map_values(|c: Vec<char>| c@) + normal_components(sv, i as int) == components(sv),
        decreases n - i,
    {
        let mut seg: Vec<char> = Vec::new();
        let mut j: usize = i;
        while j < n && cs[j] != '/'
            invariant
                cs@ == sv,
                n == sv.len(),
                i <= j <= n,
                seg@ == sv.subrange(i as int, j as int),
                seg_end(sv, i as int) == seg_end(sv, j as int),
            decreases n - j,
        {
            seg.push(cs[j]);
            assert(sv.subrange(i as int, j + 1) =~= sv.subrange(i as int, j as int).push(sv[j as int]));
            j = j + 1;
        }
        let ghost before = out@;
        let keep = !(seg.len() == 0 || (seg.len() == 1 && seg[0] == '.'));
        proof {
            assert(seg_end(sv, j as int) == j);
            assert((seg@.len() == 1 && seg@[0] == '.') <==> seg@ =~= seq!['.']);
        }
        if keep {
            out.push(seg);
        }
        proof {
            if j >= n {
                assert(normal_components(sv, j + 1) =~= Seq::<Seq<char>>::empty());
                assert(normal_components(sv, n as int) =~= Seq::<Seq<char>>::empty());
            }
            if keep {
                assert(out@.map_values(|c: Vec<char>| c@) =~= before.map_values(|c: Vec<char>| c@).push(sv.subrange(i as int, j as int)));
            } else {
                assert(out@.map_values(|c: Vec<char>| c@) =~= before.map_values(|c: Vec<char>| c@));
            }
            assert(out@.map_values(|c: Vec<char>| c@) + normal_components(sv, if j < n { j + 1 } else { n as int })
                =~= before.map_values(|c: Vec<char>| c@) + normal_components(sv, i as int));
        }
        i = if j < n { j + 1 } else { n };
    }
    assert(normal_components(sv, i as int) =~= Seq::<Seq<char>>::empty());
    assert(out@.map_values(|c: Vec<char>| c@) + Seq::<Seq<char>>::empty() =~= out@.map_values(|c: Vec<char>| c@));
    out
}

/// Joins components into a path text.
pub fn join_path(comps: &Vec<Vec<char>>, n: usize) -> (r: String)
    requires
        n <= comps@.len(),
    ensures
        r@ == join_components(comps@.map_values(|c: Vec<char>| c@).take(n as int)),
{
    let ghost cv = comps@.map_values(|c: Vec<char>| c@);
    let mut out = String::new();
    let mut k: usize = 0;
    assert(cv.take(0) =~= Seq::<Seq<char>>::empty());
    while k < n
        invariant
            k <= n,
            n <= comps@.len(),
            cv == comps@.map_values(|c: Vec<char>| c@),
            out@ == join_components(cv.take(k as int)),
        decreases n - k,
    {
        let ghost o0 = out@;
        let root_only = k == 1 && comps[0].len() == 1 && comps[0][0] == '/';
        proof {
            assert(cv.take(k + 1).drop_last() =~= cv.take(k as int));
            assert(cv.take(k + 1).last() == comps@[k as int]@);
            if k == 1 {
                assert(cv.take(1) =~= seq![cv[0]]);
                if root_only {
                    assert(cv[0] =~= seq!['/']);
                } else if cv.take(1) == seq![seq!['/']] {
                    assert(cv[0] == seq!['/']);
                    assert(comps@[0]@ == seq!['/']);
                    assert(false);
                }
            } else if k > 1 {
                assert(cv.take(k as int).len() > 1);
            }
        }
        if k > 0 && !root_only {
            push_char(&mut out, '/');
        }
        push_chars(&mut out, &comps[k]);
        proof {
            if k == 0 {
                assert(out@ =~= join_components(cv.take(1)));
            } else if root_only {
                assert(out@ =~= o0 + comps@[k as int]@);
            } else {
                assert(out@ =~= o0 + seq!['/'] + comps@[k as int]@);
            }
        }
        k = k + 1;
    }
    out
}

pub open spec fn comps_view(v: Seq<Vec<char>>) -> Seq<Seq<char>> {
    v.map_values(|c: Vec<char>| c@)
}

/// The relative path of `file` under `dir` when `dir`'s components are a
/// prefix of `file`'s, else `file`'s own components, joined with `/`.
pub open spec fn spec_rel_path(dir: Seq<char>, file: Seq<char>) -> Seq<char> {
    let d = components(dir);
    let f = components(file);
    let rest = if d.len() <= f.len() && f.take(d.len() as int) == d { f.skip(d.len() as int) } else { f };
    join_components(rest).map_values(|c: char| if c == '\\' { '/' } else { c })
}

/// The path of `file` relative to `dir`, with `/` separators.
pub fn rel_path(dir: &str, file: &str) -> (r: String)
    ensures
        r@ == spec_rel_path(dir@, file@),
{
    let d = path_components(dir);
    let f = path_components(file);
    let ghost dv = comps_view(d@);
    let ghost fv = comps_view(f@);
    let mut is_prefix_comps = d.len() <= f.len();
    let mut k: usize = 0;
    while is_prefix_comps && k < d.len()
        invariant
            dv == comps_view(d@),
            fv == comps_view(f@),
            k <= d@.len(),
            is_prefix_comps ==> d@.len() <= f@.len() && forall|m: int| 0 <= m < k ==> fv[m] == dv[m],
            !is_prefix_comps ==> !(dv.len() <= fv.len() && fv.take(dv.len() as int) == dv),
        decreases d@.len() - k,
    {
        if !chars_eq(&d[k], &f[k]) {
            is_prefix_comps = false;
            proof {
                if dv.len() <= fv.len() && fv.take(dv.len() as int) == dv {
                    assert(fv.take(dv.len() as int)[k as int] == fv[k as int]);
                }
            }
        }
        k = k + 1;
    }
    let start = if is_prefix_comps { d.len() } else { 0 };
    proof {
        if is_prefix_comps {
            assert(fv.take(dv.len() as int) =~= dv);
        }
    }
    let mut rest: Vec<Vec<char>> = Vec::new();
    let mut i: usize = start;
    while i < f.len()
        invariant
            start <= i <= f@.len(),
            fv == comps_view(f@),
            comps_view(rest@) == fv.subrange(start as int, i as int),
        decreases f@.len() - i,
    {
        let ghost before = rest@;
        rest.push(crate::text::copy_chars(&f[i]));
        assert(comps_view(rest@) =~= comps_view(before).push(fv[i as int]));
        assert(comps_view(rest@) =~= fv.subrange(start as int, i + 1));
        i = i + 1;
    }
    let joined = join_path(&rest, rest.len());
    proof {
        assert(comps_view(rest@).take(rest@.len() as int) =~= comps_view(rest@));
        if is_prefix_comps {
            assert(fv.subrange(start as int, fv.len() as int) =~= fv.skip(dv.len() as int));
        } else {
            assert(fv.subrange(0, fv.len() as int) =~= fv);
        }
    }
    let jc = chars_of(joined.as_str());
    let mut out = String::new();
    let mut m: usize = 0;
    while m < jc.len()
        invariant
            m <= jc@.len(),
            out@ == jc@.take(m as int).map_values(|c: char| if c == '\\' { '/' } else { c }),
        decreases jc@.len() - m,
    {
        let c = jc[m];
        push_char(&mut out, if c == '\\' { '/' } else { c });
        assert(jc@.take(m + 1) =~= jc@.take(m as int).push(c));
        assert(out@ =~= jc@.take(m + 1).map_values(|c: char| if c == '\\' { '/' } else { c }));
        m = m + 1;
    }
    assert(jc@.take(jc@.len() as int) =~= jc@);
    out
}

/// The `k`-th directory above the file matches the `k`-th segment from the end.
pub open spec fn dir_matches(comps: Seq<Seq<char>>, segs: Seq<Seq<char>>, k: int) -> bool {
    comps[comps.len() - 1 - k] == segs[segs.len() - 1 - k]
}

/// The project root of `file` declared as `module s1. ... .sn`: the file
/// must be `<root>/s1/.../s(n-1)/<stem>` with `<stem>` equal to `sn`.
pub open spec fn spec_derive_root(file: Seq<char>, segs: Seq<Seq<char>>) -> Option<Seq<Seq<char>>> {
    let comps = components(file);
    let n = segs.len();
    let l = comps.len();
    if n == 0 || l < n || comps[l - 1] == seq!['/'] || file_stem(comps[l - 1]) != segs[n - 1] {
        None
    } else if !(forall|k: int| 1 <= k < n ==> #[trigger] dir_matches(comps, segs, k)) {
        None
    } else {
        Some(comps.take(l - n))
    }
}

fn stem_of(name: &Vec<char>) -> (r: Vec<char>)
    ensures
        r@ == file_stem(name@),
{
    if name.len() == 2 && name[0] == '.' && name[1] == '.' {
        assert(name@ =~= seq!['.', '.']);
        return crate::text::copy_chars(name);
    }
    let mut i: usize = name.len();
    while i > 0 && name[i - 1] != '.'
        invariant
            i <= name@.len(),
            last_dot(name@, name@.len() as int) == last_dot(name@, i as int),
        decreases i,
    {
        i = i - 1;
    }
    if i == 0 || i == 1 {
        proof {
            assert(!(name@ =~= seq!['.', '.']) || name@.len() != 2);
        }
        return crate::text::copy_chars(name);
    }
    let mut r: Vec<char> = Vec::new();
    let mut k: usize = 0;
    while k < i - 1
        invariant
            k <= i - 1,
            i <= name@.len(),
            r@ == name@.subrange(0, k as int),
        decreases i - 1 - k,
    {
        r.push(name[k]);
        assert(name@.subrange(0, k + 1) =~= name@.subrange(0, k as int).push(name@[k as int]));
        k = k + 1;
    }
    proof {
        if name@ =~= seq!['.', '.'] {
            assert(false);
        }
    }
    r
}

/// The project root implied by the module declaration, or `None` when the
/// file does not follow the `<root>/a/b/c.kei` layout for `module a.b.c`
/// (no declaration, stem or directories not matching, or too few parents).
pub fn derive_root(file: &str, module: &Module) -> (r: Option<String>)
    ensures
        module.decl is None ==> r is None,
        module.decl matches Some(decl) ==> (match (spec_derive_root(file@, decl.path@.map_values(|i: crate::ast::Ident| i.name@)), r) {
            (Some(root), Some(s)) => s@ == join_components(root),
            (None, None) => true,
            _ => false,
        }),
{
    let decl = match &module.decl {
        Some(d) => d,
        None => { return None; },
    };
    let ghost segs = decl.path@.map_values(|i: crate::ast::Ident| i.name@);
    let n = decl.path.len();
    if n == 0 {
        return None;
    }
    let comps = path_components(file);
    let ghost cv = comps_view(comps@);
    let l = comps.len();
    if l < n {
        return None;
    }
    let last = &comps[l - 1];
    if last.len() == 1 && last[0] == '/' {
        assert(cv[l - 1] =~= seq!['/']);
        return None;
    }
    proof {
        assert(!(cv[l - 1] =~= seq!['/']));
    }
    let stem = stem_of(last);
    let seg_last = chars_of(decl.path[n - 1].name.as_str());
    assert(segs[n - 1] == decl.path@[n - 1].name@);
    assert(stem@ == file_stem(cv[l - 1]));
    if !chars_eq(&stem, &seg_last) {
        return None;
    }
    let mut k: usize = 1;
    while k < n
        invariant
            1 <= k <= n,
            n == segs.len(),
            l == cv.len(),
            l >= n,
            cv == comps_view(comps@),
            segs == decl.path@.map_values(|i: crate::ast::Ident| i.name@),
            forall|m: int| 1 <= m < k ==> #[trigger] dir_matches(cv, segs, m),
            cv == components(file@),
            cv[l - 1] != seq!['/'],
            file_stem(cv[l - 1]) == segs[n - 1],
            module.decl == Some(*decl),
        decreases n - k,
    {
        let seg = chars_of(decl.path[n - 1 - k].name.as_str());
        assert(segs[n - 1 - k] == decl.path@[n - 1 - k].name@);
        if !chars_eq(&comps[l - 1 - k], &seg) {
            assert(!dir_matches(cv, segs, k as int));
            return None;
        }
        k = k + 1;
    }
    Some(join_path(&comps, l - n))
}

/// Removes the `//# sourceMappingURL=...` lines; every kept line ends with a
/// line break.
pub open spec fn kept_lines(ls: Seq<Seq<char>>) -> Seq<char>
    decreases ls.len(),
{
    if ls.len() == 0 {
        Seq::empty()
    } else if is_prefix("//# sourceMappingURL="@, ls.last()) {
        kept_lines(ls.drop_last())
    } else {
        kept_lines(ls.drop_last()) + ls.last() + seq!['\n']
    }
}

/// Drops the source-map comment line that the emitter always appends.
pub fn strip_source_mapping_url(ts: &str) -> (r: String)
    ensures
        r@ == kept_lines(lines(ts@)),
{
    let ls = split_lines(ts);
    let ghost lv = ls@.map_values(|l: Vec<char>| l@);
    let marker = chars_of("//# sourceMappingURL=");
    let mut out = String::new();
    let mut i: usize = 0;
    while i < ls.len()
        invariant
            i <= ls@.len(),
            lv == ls@.map_values(|l: Vec<char>| l@),
            marker@ == "//# sourceMappingURL="@,
            out@ == kept_lines(lv.take(i as int)),
        decreases ls@.len() - i,
    {
        proof {
            assert(lv.take(i + 1).drop_last() =~= lv.take(i as int));
        }
        if !chars_starts_with(&ls[i], &marker) {
            push_chars(&mut out, &ls[i]);
            push_char(&mut out, '\n');
        }
        i = i + 1;
    }
    assert(lv.take(ls@.len() as int) =~= lv);
    out
}

} // verus!
