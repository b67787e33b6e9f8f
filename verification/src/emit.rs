//! Kei → TypeScript. The emitter runs only on a module that checked clean
//! and reads the syntax tree alone (no checking is done again here).
//!
//! Shape of the output:
//! - `record` → a readonly object type and a factory function of the same name;
//! - `enum` → a union discriminated by `kind` and an object of constructors;
//! - a tagged alias → a branded type (`__keiTag`) and a constructor function;
//! - `requires` / `ensures` → runtime checks that throw `KeiContractViolation`
//!   (from `@kei/runtime`); `ensures` wraps the body in an arrow function and
//!   checks its result;
//! - `uses` and the contracts stay as a doc comment.
//!
//! Every piece of text is written through an output buffer that tracks the
//! generated line and column, so that each source-map entry records the
//! position at which its construct's text begins.
use vstd::prelude::*;
use crate::ast::{self, expr_span, BinOp, Expr, Ident, Item, Module, Pattern, PatternPayload, Type, UnaryOp};
use crate::json::json_quote;
use crate::notation::{contract_expr_text, expr_text, names_text, path_text};
use crate::sourcemap::{encode_from, encode_mappings, Mapping};
use crate::span::Span;
use crate::json::json_string;
use crate::text::{chars_of, decimal, int_text, push_char, push_i64, push_str, repeat_text, u64_string};

verus! {

broadcast use vstd::string::group_string_axioms;

// ---------------------------------------------------------------------------
// Generated positions
// ---------------------------------------------------------------------------

/// The (line, column) after writing `c` at `p`; both saturate at `u32::MAX`
/// and never move backwards.
pub open spec fn step(p: (u32, u32), c: char) -> (u32, u32) {
    if c == '\n' {
        if p.0 < u32::MAX { ((p.0 + 1) as u32, 0u32) } else { p }
    } else if p.1 < u32::MAX {
        (p.0, (p.1 + 1) as u32)
    } else {
        p
    }
}

/// The 0-based (line, column) reached after writing `s`.
pub open spec fn pos_of(s: Seq<char>) -> (u32, u32)
    decreases s.len(),
{
    if s.len() == 0 {
        (0u32, 0u32)
    } else {
        step(pos_of(s.drop_last()), s.last())
    }
}

pub open spec fn pos_le(a: (u32, u32), b: (u32, u32)) -> bool {
    a.0 < b.0 || (a.0 == b.0 && a.1 <= b.1)
}

/// The number of line breaks in `s`.
pub open spec fn newlines(s: Seq<char>) -> nat
    decreases s.len(),
{
    if s.len() == 0 {
        0
    } else {
        newlines(s.drop_last()) + (if s.last() == '\n' { 1nat } else { 0nat })
    }
}

/// The number of characters after the last line break of `s`.
pub open spec fn tail_len(s: Seq<char>) -> nat
    decreases s.len(),
{
    if s.len() == 0 {
        0
    } else if s.last() == '\n' {
        0
    } else {
        tail_len(s.drop_last()) + 1
    }
}

/// Below `u32::MAX` lines the tracked position is exact: the line is the
/// number of line breaks written and the column the number of characters
/// written since the last one (saturating at `u32::MAX`).
pub proof fn law_position_exact(s: Seq<char>)
    requires
        newlines(s) < u32::MAX,
    ensures
        pos_of(s).0 == newlines(s),
        pos_of(s).1 == (if tail_len(s) < u32::MAX { tail_len(s) } else { u32::MAX as nat }),
    decreases s.len(),
{
    if s.len() > 0 {
        law_position_exact(s.drop_last());
    }
}

proof fn lemma_pos_prefix(s: Seq<char>, k: int)
    requires
        0 <= k <= s.len(),
    ensures
        pos_le(pos_of(s.take(k)), pos_of(s)),
    decreases s.len(),
{
    if k < s.len() {
        lemma_pos_prefix(s.drop_last(), k);
        assert(s.drop_last().take(k) =~= s.take(k));
    } else {
        assert(s.take(k) =~= s);
    }
}

// ---------------------------------------------------------------------------
// The output buffer
// ---------------------------------------------------------------------------

const INDENT: &'static str = "  ";

struct Out {
    buf: String,
    line: u32,
    col: u32,
    indent: usize,
    mappings: Vec<Mapping>,
    /// For each mapping, the length of `buf` when it was recorded.
    marks: Ghost<Seq<nat>>,
    /// Text that is already final: `buf` only grows past it.
    fixed: Ghost<Seq<char>>,
}

/// The mapping's generated position is where the text written after the
/// first `mark` characters of `buf` begins.
spec fn marks_at(buf: Seq<char>, ms: Seq<Mapping>, marks: Seq<nat>) -> bool {
    &&& marks.len() == ms.len()
    &&& forall|i: int| 0 <= i < ms.len() ==> #[trigger] marks[i] <= buf.len()
        && (ms[i].gen_line, ms[i].gen_col) == pos_of(buf.take(marks[i] as int))
    &&& forall|i: int, j: int| 0 <= i < j < ms.len() ==> #[trigger] marks[i] <= #[trigger] marks[j]
}

#[verifier::opaque]
spec fn out_wf(o: Out) -> bool {
    &&& (o.line, o.col) == pos_of(o.buf@)
    &&& marks_at(o.buf@, o.mappings@, o.marks@)
    &&& o.fixed@.is_prefix_of(o.buf@)
}

/// `o1` continues `o0`: text only appended, mappings only appended, same
/// indent and fixed text.
spec fn grows(o0: Out, o1: Out) -> bool {
    &&& o0.buf@.is_prefix_of(o1.buf@)
    &&& o0.mappings@.is_prefix_of(o1.mappings@)
    &&& o1.indent == o0.indent
    &&& o1.fixed == o0.fixed
}

proof fn lemma_grows_trans(a: Out, b: Out, c: Out)
    requires
        grows(a, b),
        grows(b, c),
    ensures
        grows(a, c),
{
    assert(c.buf@.take(a.buf@.len() as int) =~= b.buf@.take(a.buf@.len() as int));
    assert(c.mappings@.take(a.mappings@.len() as int) =~= b.mappings@.take(a.mappings@.len() as int));
}

/// The mapping positions are ordered by generated line, then column: the
/// order the `mappings` field of a source map needs.
proof fn lemma_mappings_ordered(buf: Seq<char>, ms: Seq<Mapping>, marks: Seq<nat>, i: int, j: int)
    requires
        marks_at(buf, ms, marks),
        0 <= i < j < ms.len(),
    ensures
        pos_le((ms[i].gen_line, ms[i].gen_col), (ms[j].gen_line, ms[j].gen_col)),
{
    let t = buf.take(marks[j] as int);
    assert(marks[i] <= marks[j]);
    assert(marks[j] <= buf.len());
    lemma_pos_prefix(t, marks[i] as int);
    assert(t.take(marks[i] as int) =~= buf.take(marks[i] as int));
}

proof fn lemma_out_wf_fixed(o: Out)
    requires
        out_wf(o),
    ensures
        o.fixed@.is_prefix_of(o.buf@),
        marks_at(o.buf@, o.mappings@, o.marks@),
{
    reveal(out_wf);
}

impl Out {
    fn new() -> (o: Out)
        ensures
            out_wf(o),
            o.buf@ == Seq::<char>::empty(),
            o.mappings@ == Seq::<Mapping>::empty(),
            o.indent == 0,
    {
        reveal(out_wf);
        let o = Out {
            buf: String::new(),
            line: 0,
            col: 0,
            indent: 0,
            mappings: Vec::new(),
            marks: Ghost(Seq::empty()),
            fixed: Ghost(Seq::empty()),
        };
        assert(o.fixed@ =~= o.buf@.subrange(0, 0));
        o
    }

    /// Marks `f`, a prefix of the text written so far, as final.
    fn set_fixed(&mut self, f: Ghost<Seq<char>>)
        requires
            out_wf(*old(self)),
            f@.is_prefix_of(old(self).buf@),
        ensures
            out_wf(*final(self)),
            final(self).fixed == f,
            final(self).indent == old(self).indent,
            final(self).buf == old(self).buf,
            final(self).mappings == old(self).mappings,
            final(self).marks == old(self).marks,
    {
        reveal(out_wf);
        self.fixed = f;
    }

    /// Sets the indentation of the lines written next.
    fn set_indent(&mut self, k: usize)
        requires
            out_wf(*old(self)),
        ensures
            out_wf(*final(self)),
            final(self).indent == k,
            final(self).buf == old(self).buf,
            final(self).mappings == old(self).mappings,
            final(self).fixed == old(self).fixed,
    {
        reveal(out_wf);
        self.indent = k;
    }

    /// Writes one character and advances the position.
    fn put_char(&mut self, c: char)
        requires
            out_wf(*old(self)),
        ensures
            out_wf(*final(self)),
            grows(*old(self), *final(self)),
            final(self).buf@ == old(self).buf@.push(c),
            final(self).mappings@ == old(self).mappings@,
    {
        reveal(out_wf);
        let ghost b0 = self.buf@;
        push_char(&mut self.buf, c);
        if c == '\n' {
            if self.line < u32::MAX {
                self.line = self.line + 1;
                self.col = 0;
            }
        } else if self.col < u32::MAX {
            self.col = self.col + 1;
        }
        proof {
            assert(self.buf@.drop_last() =~= b0);
            assert forall|i: int| 0 <= i < self.mappings@.len() implies
                #[trigger] self.marks@[i] <= self.buf@.len()
                && (self.mappings@[i].gen_line, self.mappings@[i].gen_col) == pos_of(self.buf@.take(self.marks@[i] as int)) by {
                assert(self.buf@.take(self.marks@[i] as int) =~= b0.take(self.marks@[i] as int));
            }
            assert(b0.is_prefix_of(self.buf@)) by {
                assert(self.buf@.take(b0.len() as int) =~= b0);
            }
            assert(self.fixed@ =~= self.buf@.subrange(0, self.fixed@.len() as int));
        }
    }

    /// Writes `t` (which may hold line breaks).
    fn frag(&mut self, t: &str)
        requires
            out_wf(*old(self)),
        ensures
            out_wf(*final(self)),
            grows(*old(self), *final(self)),
            final(self).buf@ == old(self).buf@ + t@,
            final(self).mappings@ == old(self).mappings@,
    {
        let cs = chars_of(t);
        let mut i: usize = 0;
        while i < cs.len()
            invariant
                i <= cs@.len(),
                cs@ == t@,
                out_wf(*self),
                grows(*old(self), *self),
                self.buf@ == old(self).buf@ + cs@.take(i as int),
                self.mappings@ == old(self).mappings@,
            decreases cs@.len() - i,
        {
            let ghost o1 = *self;
            self.put_char(cs[i]);
            proof {
                lemma_grows_trans(*old(self), o1, *self);
                assert(cs@.take(i + 1) =~= cs@.take(i as int).push(cs@[i as int]));
            }
            i = i + 1;
        }
        assert(cs@.take(cs@.len() as int) =~= cs@);
    }

    fn newline(&mut self)
        requires
            out_wf(*old(self)),
        ensures
            out_wf(*final(self)),
            grows(*old(self), *final(self)),
            final(self).buf@ == old(self).buf@.push('\n'),
            final(self).mappings@ == old(self).mappings@,
    {
        self.put_char('\n');
    }

    /// Writes the indentation of a new line.
    fn start_line(&mut self)
        requires
            out_wf(*old(self)),
        ensures
            out_wf(*final(self)),
            grows(*old(self), *final(self)),
            final(self).buf@ == old(self).buf@ + repeat_text("  "@, old(self).indent as nat),
            final(self).mappings@ == old(self).mappings@,
    {
        let mut k: usize = 0;
        while k < self.indent
            invariant
                k <= self.indent,
                out_wf(*self),
                grows(*old(self), *self),
                self.buf@ == old(self).buf@ + repeat_text("  "@, k as nat),
                self.mappings@ == old(self).mappings@,
            decreases self.indent - k,
        {
            let ghost o1 = *self;
            self.frag(INDENT);
            proof {
                lemma_grows_trans(*old(self), o1, *self);
                assert(self.buf@ =~= old(self).buf@ + repeat_text("  "@, (k + 1) as nat));
            }
            k = k + 1;
        }
    }

    /// Writes `text` as a line of its own, with no mapping.
    fn line(&mut self, text: &str)
        requires
            out_wf(*old(self)),
        ensures
            out_wf(*final(self)),
            grows(*old(self), *final(self)),
            final(self).buf@ == old(self).buf@ + repeat_text("  "@, old(self).indent as nat) + text@ + seq!['\n'],
            final(self).mappings@ == old(self).mappings@,
    {
        self.start_line();
        let ghost o1 = *self;
        self.frag(text);
        let ghost o2 = *self;
        self.newline();
        proof {
            lemma_grows_trans(*old(self), o1, o2);
            lemma_grows_trans(*old(self), o2, *self);
            assert(self.buf@ =~= old(self).buf@ + repeat_text("  "@, old(self).indent as nat) + text@ + seq!['\n']);
        }
    }

    /// Records that the text written next comes from the start of `span`
    /// (the source position is made 0-based).
    fn map(&mut self, span: Span)
        requires
            out_wf(*old(self)),
        ensures
            out_wf(*final(self)),
            grows(*old(self), *final(self)),
            final(self).buf@ == old(self).buf@,
            final(self).mappings@ == old(self).mappings@.push(Mapping {
                gen_line: old(self).line,
                gen_col: old(self).col,
                src_line: if span.start.line > 0 { (span.start.line - 1) as u32 } else { 0 },
                src_col: if span.start.col > 0 { (span.start.col - 1) as u32 } else { 0 },
            }),
    {
        reveal(out_wf);
        let m = Mapping {
            gen_line: self.line,
            gen_col: self.col,
            src_line: span.start.line.saturating_sub(1),
            src_col: span.start.col.saturating_sub(1),
        };
        let ghost ms0 = self.mappings@;
        let ghost mk0 = self.marks@;
        self.mappings.push(m);
        self.marks = Ghost(self.marks@.push(self.buf@.len()));
        proof {
            assert(self.buf@.take(self.buf@.len() as int) =~= self.buf@);
            assert forall|i: int, j: int| 0 <= i < j < self.mappings@.len() implies
                #[trigger] self.marks@[i] <= #[trigger] self.marks@[j] by {
                if j < ms0.len() {
                    assert(self.marks@[i] == mk0[i] && self.marks@[j] == mk0[j]);
                } else {
                    assert(self.marks@[i] == mk0[i]);
                }
            }
            assert forall|i: int| 0 <= i < self.mappings@.len() implies
                #[trigger] self.marks@[i] <= self.buf@.len()
                && (self.mappings@[i].gen_line, self.mappings@[i].gen_col) == pos_of(self.buf@.take(self.marks@[i] as int)) by {
                if i < ms0.len() {
                    assert(self.marks@[i] == mk0[i]);
                    assert(self.mappings@[i] == ms0[i]);
                }
            }
            assert(ms0.is_prefix_of(self.mappings@)) by {
                assert(self.mappings@.take(ms0.len() as int) =~= ms0);
            }
            assert(self.buf@.is_prefix_of(self.buf@)) by {
                assert(self.buf@.take(self.buf@.len() as int) =~= self.buf@);
            }
        }
    }
}

// ---------------------------------------------------------------------------
// Types and paths
// ---------------------------------------------------------------------------

/// The TypeScript spelling of a Kei type: `Int`, `String` and `Bool` become
/// `number`, `string` and `boolean`; a qualified path is kept as `a.b`.
pub open spec fn ts_type_text(t: Type) -> Seq<char>
    decreases t, 2nat,
{
    let n = t.path@.len();
    if n > 1 {
        path_text(t.path@, n)
    } else {
        let name = if n == 1 { t.path@[0].name@ } else { Seq::<char>::empty() };
        if name == "Int"@ {
            "number"@
        } else if name == "String"@ {
            "string"@
        } else if name == "Bool"@ {
            "boolean"@
        } else if name == "Result"@ {
            "Result<"@ + ts_arg_text(t, 0) + ", "@ + ts_arg_text(t, 1) + ">"@
        } else if name == "Option"@ {
            "Option<"@ + ts_arg_text(t, 0) + ">"@
        } else if t.args@.len() == 0 {
            name
        } else {
            name + "<"@ + ts_types_text(t.args@, t.args@.len()) + ">"@
        }
    }
}

/// The `i`-th type argument (empty when absent, which a checked module rules out).
pub open spec fn ts_arg_text(t: Type, i: nat) -> Seq<char>
    decreases t, 1nat,
{
    if i < t.args@.len() {
        ts_type_text(t.args@[i as int])
    } else {
        Seq::empty()
    }
}

/// The first `n` types, joined with `, `.
pub open spec fn ts_types_text(ts: Seq<Type>, n: nat) -> Seq<char>
    decreases ts, n,
{
    if n == 0 || n > ts.len() {
        Seq::empty()
    } else if n == 1 {
        ts_type_text(ts[0])
    } else {
        ts_types_text(ts, (n - 1) as nat) + ", "@ + ts_type_text(ts[n - 1])
    }
}

fn push_ts_type(s: &mut String, t: &Type)
    ensures
        final(s)@ == old(s)@ + ts_type_text(*t),
    decreases *t, 2nat,
{
    let ghost s0 = s@;
    let n = t.path.len();
    if n > 1 {
        crate::notation::push_path(s, &t.path);
        return;
    }
    let name: &str = if n == 1 { t.path[0].name.as_str() } else { "" };
    proof {
        if n == 0 {
            reveal_strlit("");
            assert(name@ =~= Seq::<char>::empty());
        }
    }
    if crate::text::str_eq(name, "Int") {
        push_str(s, "number");
    } else if crate::text::str_eq(name, "String") {
        push_str(s, "string");
    } else if crate::text::str_eq(name, "Bool") {
        push_str(s, "boolean");
    } else if crate::text::str_eq(name, "Result") {
        push_str(s, "Result<");
        push_ts_arg(s, t, 0);
        push_str(s, ", ");
        push_ts_arg(s, t, 1);
        push_str(s, ">");
        assert(s@ =~= s0 + ("Result<"@ + ts_arg_text(*t, 0) + ", "@ + ts_arg_text(*t, 1) + ">"@));
    } else if crate::text::str_eq(name, "Option") {
        push_str(s, "Option<");
        push_ts_arg(s, t, 0);
        push_str(s, ">");
        assert(s@ =~= s0 + ("Option<"@ + ts_arg_text(*t, 0) + ">"@));
    } else if t.args.len() == 0 {
        push_str(s, name);
    } else {
        push_str(s, name);
        push_str(s, "<");
        push_ts_types(s, &t.args);
        push_str(s, ">");
        assert(s@ =~= s0 + (name@ + "<"@ + ts_types_text(t.args@, t.args@.len()) + ">"@));
    }
}

fn push_ts_arg(s: &mut String, t: &Type, i: usize)
    ensures
        final(s)@ == old(s)@ + ts_arg_text(*t, i as nat),
    decreases *t, 1nat,
{
    if i < t.args.len() {
        assert(decreases_to!(t.args@ => t.args@[i as int]));
        push_ts_type(s, &t.args[i]);
    } else {
        assert(s@ =~= s@ + Seq::<char>::empty());
    }
}

fn push_ts_types(s: &mut String, ts: &Vec<Type>)
    ensures
        final(s)@ == old(s)@ + ts_types_text(ts@, ts@.len()),
    decreases ts@, 0nat,
{
    let ghost s0 = s@;
    let mut i: usize = 0;
    while i < ts.len()
        invariant
            i <= ts@.len(),
            s@ == s0 + ts_types_text(ts@, i as nat),
        decreases ts@.len() - i,
    {
        if i > 0 {
            push_str(s, ", ");
        }
        assert(decreases_to!(ts@ => ts@[i as int]));
        push_ts_type(s, &ts[i]);
        proof {
            if i > 0 {
                assert(s@ =~= s0 + (ts_types_text(ts@, i as nat) + ", "@ + ts_type_text(ts@[i as int])));
            } else {
                assert(s@ =~= s0 + ts_type_text(ts@[0]));
            }
        }
        i = i + 1;
    }
}

/// The TypeScript spelling of `t`.
fn ts_type(t: &Type) -> (r: String)
    ensures
        r@ == ts_type_text(*t),
{
    let mut s = String::new();
    push_ts_type(&mut s, t);
    assert(Seq::<char>::empty() + ts_type_text(*t) =~= ts_type_text(*t));
    s
}

/// The part of `s` after its last `/` (all of `s` when there is none).
pub open spec fn last_segment(s: Seq<char>) -> Seq<char>
    decreases s.len(),
{
    if s.len() == 0 {
        s
    } else if s.last() == '/' {
        Seq::empty()
    } else {
        last_segment(s.drop_last()).push(s.last())
    }
}

/// The output path of a module, relative to the output directory: the
/// module path joined with `/` and `.ts` when the module is declared, else
/// the file's name with `.kei` replaced by `.ts` (`module.ts` for any other
/// name).
pub open spec fn ts_path_text(file: Seq<char>, decl: Option<ast::ModuleDecl>) -> Seq<char> {
    match decl {
        Some(d) => crate::notation::names_text(d.path@, d.path@.len(), "/"@) + ".ts"@,
        None => {
            let n = last_segment(file);
            let stem = if n.len() >= 4 && n.subrange(n.len() - 4, n.len() as int) == ".kei"@ {
                n.subrange(0, n.len() - 4)
            } else {
                "module"@
            };
            stem + ".ts"@
        },
    }
}

fn last_segment_of(s: &str) -> (r: Vec<char>)
    ensures
        r@ == last_segment(s@),
{
    let cs = chars_of(s);
    let mut start: usize = 0;
    let mut i: usize = 0;
    while i < cs.len()
        invariant
            i <= cs@.len(),
            start <= i,
            cs@ == s@,
            last_segment(cs@.take(i as int)) == cs@.subrange(start as int, i as int),
        decreases cs@.len() - i,
    {
        proof {
            let t = cs@.take(i + 1);
            assert(t.drop_last() =~= cs@.take(i as int));
            assert(t.last() == cs@[i as int]);
        }
        if cs[i] == '/' {
            start = i + 1;
            assert(cs@.subrange(start as int, (i + 1) as int) =~= Seq::<char>::empty());
        } else {
            assert(cs@.subrange(start as int, i + 1) =~= cs@.subrange(start as int, i as int).push(cs@[i as int]));
        }
        i = i + 1;
    }
    assert(cs@.take(cs@.len() as int) =~= cs@);
    let mut r: Vec<char> = Vec::new();
    let mut k: usize = start;
    while k < cs.len()
        invariant
            start <= k <= cs@.len(),
            r@ == cs@.subrange(start as int, k as int),
        decreases cs@.len() - k,
    {
        r.push(cs[k]);
        assert(r@ =~= cs@.subrange(start as int, k + 1));
        k = k + 1;
    }
    r
}

fn ts_path_for(file: &str, module: &Module) -> (r: String)
    ensures
        r@ == ts_path_text(file@, module.decl),
{
    match &module.decl {
        Some(d) => {
            let mut s = String::new();
            crate::notation::push_names(&mut s, &d.path, "/");
            push_str(&mut s, ".ts");
            assert(s@ =~= crate::notation::names_text(d.path@, d.path@.len(), "/"@) + ".ts"@);
            s
        },
        None => {
            let n = last_segment_of(file);
            let len = n.len();
            let mut kei = false;
            if len >= 4 {
                kei = n[len - 4] == '.' && n[len - 3] == 'k' && n[len - 2] == 'e' && n[len - 1] == 'i';
                proof {
                    reveal_strlit(".kei");
                    let tail = n@.subrange(len - 4, len as int);
                    if kei {
                        assert(tail =~= ".kei"@);
                    } else {
                        assert(tail != ".kei"@) by {
                            if tail == ".kei"@ {
                                assert(tail[0] == n@[len - 4]);
                                assert(tail[1] == n@[len - 3]);
                                assert(tail[2] == n@[len - 2]);
                                assert(tail[3] == n@[len - 1]);
                            }
                        }
                    }
                }
            }
            let mut s = String::new();
            if kei {
                let mut k: usize = 0;
                while k < len - 4
                    invariant
                        len == n@.len(),
                        len >= 4,
                        k <= len - 4,
                        s@ == n@.subrange(0, k as int),
                    decreases len - 4 - k,
                {
                    push_char(&mut s, n[k]);
                    assert(s@ =~= n@.subrange(0, k + 1));
                    k = k + 1;
                }
            } else {
                push_str(&mut s, "module");
            }
            push_str(&mut s, ".ts");
            s
        },
    }
}

/// The relative import specifier of `path` from a module declared with
/// `decl`: the module path is the file path, so one `../` per level below
/// the root (`./` at the root), then the path joined with `/`.
pub open spec fn import_specifier_text(decl: Option<ast::ModuleDecl>, path: Seq<Ident>) -> Seq<char> {
    let depth: nat = match decl {
        Some(d) => if d.path@.len() > 0 { (d.path@.len() - 1) as nat } else { 0 },
        None => 0,
    };
    (if depth == 0 { "./"@ } else { repeat_text("../"@, depth) }) + crate::notation::names_text(path, path.len(), "/"@)
}

fn push_import_specifier(s: &mut String, decl: &Option<ast::ModuleDecl>, path: &Vec<Ident>)
    ensures
        final(s)@ == old(s)@ + import_specifier_text(*decl, path@),
{
    let ghost s0 = s@;
    let depth: usize = match decl {
        Some(d) => if d.path.len() > 0 { d.path.len() - 1 } else { 0 },
        None => 0,
    };
    if depth == 0 {
        push_str(s, "./");
    } else {
        let mut k: usize = 0;
        while k < depth
            invariant
                k <= depth,
                s@ == s0 + repeat_text("../"@, k as nat),
            decreases depth - k,
        {
            push_str(s, "../");
            assert(s@ =~= s0 + repeat_text("../"@, (k + 1) as nat));
            k = k + 1;
        }
    }
    let ghost s1 = s@;
    crate::notation::push_names(s, path, "/");
    assert(s@ =~= s0 + import_specifier_text(*decl, path@));
}

// ---------------------------------------------------------------------------
// List method calls and operator precedence
// ---------------------------------------------------------------------------

/// Whether the checker established the method name at `pos` as a list method.
fn is_list_op(ops: &Vec<(u32, u32)>, pos: crate::span::Position) -> (r: bool)
    ensures
        r == ops@.contains((pos.line, pos.col)),
{
    let mut i: usize = 0;
    while i < ops.len()
        invariant
            i <= ops@.len(),
            forall|k: int| 0 <= k < i ==> ops@[k] != (pos.line, pos.col),
        decreases ops@.len() - i,
    {
        if ops[i].0 == pos.line && ops[i].1 == pos.col {
            assert(ops@[i as int] == (pos.line, pos.col));
            return true;
        }
        i = i + 1;
    }
    false
}

/// TypeScript binding strength (larger binds tighter): `||`, equality,
/// ordering, additive, multiplicative, unary, postfix.
pub open spec fn ts_prec(op: BinOp) -> nat {
    match op {
        BinOp::Implies | BinOp::Or => 0,
        BinOp::Eq | BinOp::Ne => 1,
        BinOp::Lt | BinOp::Gt | BinOp::Le | BinOp::Ge => 2,
        BinOp::Add | BinOp::Sub => 3,
        BinOp::Mul | BinOp::Div | BinOp::Rem => 4,
    }
}

pub open spec fn ts_op_text(op: BinOp) -> Seq<char> {
    match op {
        BinOp::Eq => "==="@,
        BinOp::Ne => "!=="@,
        BinOp::Lt => "<"@,
        BinOp::Gt => ">"@,
        BinOp::Le => "<="@,
        BinOp::Ge => ">="@,
        BinOp::Add => "+"@,
        BinOp::Sub => "-"@,
        BinOp::Mul => "*"@,
        BinOp::Div => "/"@,
        BinOp::Rem => "%"@,
        BinOp::Or | BinOp::Implies => "||"@,
    }
}

const PREC_OR: u8 = 0;
const PREC_MUL: u8 = 4;
const PREC_UNARY: u8 = 5;
const PREC_POSTFIX: u8 = 6;

fn ts_prec_of(op: BinOp) -> (p: u8)
    ensures
        p == ts_prec(op),
{
    match op {
        BinOp::Implies | BinOp::Or => 0,
        BinOp::Eq | BinOp::Ne => 1,
        BinOp::Lt | BinOp::Gt | BinOp::Le | BinOp::Ge => 2,
        BinOp::Add | BinOp::Sub => 3,
        BinOp::Mul | BinOp::Div | BinOp::Rem => 4,
    }
}

fn ts_op(op: BinOp) -> (r: &'static str)
    ensures
        r@ == ts_op_text(op),
{
    match op {
        BinOp::Eq => "===",
        BinOp::Ne => "!==",
        BinOp::Lt => "<",
        BinOp::Gt => ">",
        BinOp::Le => "<=",
        BinOp::Ge => ">=",
        BinOp::Add => "+",
        BinOp::Sub => "-",
        BinOp::Mul => "*",
        BinOp::Div => "/",
        BinOp::Rem => "%",
        BinOp::Or | BinOp::Implies => "||",
    }
}

/// The emitted TypeScript operator means what the Kei operator means: every
/// comparison and arithmetic operator is written exactly as in Kei source
/// (`>=` stays `>=`, `<` stays `<`, `-` stays `-`, ...), `==` and `!=`
/// become the strict `===` and `!==`, and `||` stays `||`. No two different
/// operators other than `||` and `implies` (which is emitted as `||` on a
/// negated premise) share an emitted spelling.
pub proof fn law_ts_operator_meaning(op: BinOp, other: BinOp)
    ensures
        op != BinOp::Eq && op != BinOp::Ne && op != BinOp::Implies ==> ts_op_text(op) == crate::notation::bin_op_text(op),
        ts_op_text(BinOp::Eq) == crate::notation::bin_op_text(BinOp::Eq) + "="@,
        ts_op_text(BinOp::Ne) == crate::notation::bin_op_text(BinOp::Ne) + "="@,
        ts_op_text(BinOp::Implies) == crate::notation::bin_op_text(BinOp::Or),
        op != other && op != BinOp::Implies && other != BinOp::Implies ==> ts_op_text(op) != ts_op_text(other),
{
    reveal_strlit("===");
    reveal_strlit("!==");
    reveal_strlit("==");
    reveal_strlit("!=");
    reveal_strlit("=");
    reveal_strlit("<");
    reveal_strlit(">");
    reveal_strlit("<=");
    reveal_strlit(">=");
    reveal_strlit("+");
    reveal_strlit("-");
    reveal_strlit("*");
    reveal_strlit("/");
    reveal_strlit("%");
    reveal_strlit("||");
    assert("==="@ =~= "=="@ + "="@);
    assert("!=="@ =~= "!="@ + "="@);
    if op != other && op != BinOp::Implies && other != BinOp::Implies {
        let a = ts_op_text(op);
        let b = ts_op_text(other);
        assert(a.len() != b.len() || a[0] != b[0] || (a.len() > 1 && a[1] != b[1]) || (a.len() > 2 && a[2] != b[2]));
    }
}

// ---------------------------------------------------------------------------
// Expressions
// ---------------------------------------------------------------------------

// ---------------------------------------------------------------------------
// The text of expressions
// ---------------------------------------------------------------------------

/// `n + 1`, staying at the largest `usize`.
pub open spec fn bump(n: usize) -> usize {
    if n < usize::MAX { (n + 1) as usize } else { n }
}

/// The indentation of `k` levels.
pub open spec fn indent_of(k: usize) -> Seq<char> {
    repeat_text("  "@, k as nat)
}

/// `t` in parentheses when `p` holds.
pub open spec fn wrap(p: bool, t: Seq<char>) -> Seq<char> {
    if p { "("@ + t + ")"@ } else { t }
}

/// The TypeScript of expression `e` in a context of binding strength
/// `parent`, written at indentation `ind` (which a lowered `match` uses for
/// its lines), inside an `ensures` check when `ens` holds, with the list
/// method calls at the positions `ops`; `c` counts the `old(...)` captures
/// read back so far and the `match` lowerings so far. The result is the
/// text and the counters after it.
#[verifier::opaque]
pub open spec fn expr_ts(e: Expr, parent: nat, ind: usize, ens: bool, ops: Seq<(u32, u32)>, c: (usize, usize))
    -> (Seq<char>, (usize, usize))
    decreases e, 2nat,
{
    match e {
        Expr::Int { value, .. } => (int_text(value as int), c),
        Expr::Str { value, .. } => (json_quote(value@), c),
        Expr::Bool { value, .. } => (if value { "true"@ } else { "false"@ }, c),
        Expr::Name { name, .. } => (if ens && name@ == "result"@ { "kei$result"@ } else { name@ }, c),
        Expr::Field { base, name, .. } => {
            let b = expr_ts(*base, 6, ind, ens, ops, c);
            (b.0 + "."@ + name.name@, b.1)
        },
        Expr::Call { .. } => call_ts(e, ind, ens, ops, c),
        Expr::Unary { op, expr, .. } => {
            let x = expr_ts(*expr, 5, ind, ens, ops, c);
            (wrap(parent > 5, (match op { UnaryOp::Neg => "-"@, UnaryOp::Not => "!"@ }) + x.0), x.1)
        },
        Expr::Binary { .. } => binary_ts(e, parent, ind, ens, ops, c),
        Expr::RecordLit { path, fields, .. } => {
            let f = rfields_ts(fields@, fields@.len(), ind, ens, ops, c);
            (path_text(path@, path@.len()) + "({ "@ + f.0 + " })"@, f.1)
        },
        Expr::Match { .. } => match_ts(e, ind, ens, ops, c),
        Expr::ListLit { elements, .. } => {
            let a = args_ts(elements@, elements@.len(), ind, ens, ops, c);
            ("["@ + a.0 + "]"@, a.1)
        },
    }
}

/// The first `n` expressions at the loosest strength, joined with `, `.
#[verifier::opaque]
pub open spec fn args_ts(es: Seq<Expr>, n: nat, ind: usize, ens: bool, ops: Seq<(u32, u32)>, c: (usize, usize))
    -> (Seq<char>, (usize, usize))
    decreases es, n,
{
    if n == 0 || n > es.len() {
        (Seq::empty(), c)
    } else if n == 1 {
        expr_ts(es[0], 0, ind, ens, ops, c)
    } else {
        let p = args_ts(es, (n - 1) as nat, ind, ens, ops, c);
        let x = expr_ts(es[n - 1], 0, ind, ens, ops, p.1);
        (p.0 + ", "@ + x.0, x.1)
    }
}

/// The `i`-th argument at the loosest strength (nothing when absent).
#[verifier::opaque]
pub open spec fn arg_ts(es: Seq<Expr>, i: nat, ind: usize, ens: bool, ops: Seq<(u32, u32)>, c: (usize, usize))
    -> (Seq<char>, (usize, usize))
    decreases es, 0nat,
{
    if i < es.len() { expr_ts(es[i as int], 0, ind, ens, ops, c) } else { (Seq::empty(), c) }
}

/// A call of a list method, as `emit_list_call` writes it: `None` when
/// the callee is not a method the checker established as a list operation
/// at this position, or not one with a TypeScript counterpart.
#[verifier::opaque]
pub open spec fn list_call_ts(e: Expr, ind: usize, ens: bool, ops: Seq<(u32, u32)>, c: (usize, usize))
    -> Option<(Seq<char>, (usize, usize))>
    decreases e, 0nat,
{
    match e {
        Expr::Call { callee, args, .. } => match *callee {
            Expr::Field { base, name, .. } => if ops.contains((name.span.start.line, name.span.start.col)) {
                let m = name.name@;
                if m == "get"@ {
                    let b = expr_ts(*base, 0, ind, ens, ops, c);
                    let a = args_ts(args@, args@.len(), ind, ens, ops, b.1);
                    Some(("keiListGet("@ + b.0 + (if args@.len() > 0 { ", "@ } else { Seq::empty() }) + a.0 + ")"@, a.1))
                } else if m == "isEmpty"@ {
                    let b = expr_ts(*base, 6, ind, ens, ops, c);
                    Some(("("@ + b.0 + ".length === 0)"@, b.1))
                } else if m == "length"@ {
                    let b = expr_ts(*base, 6, ind, ens, ops, c);
                    Some((b.0 + ".length"@, b.1))
                } else if m == "fold"@ && args@.len() == 2 {
                    let b = expr_ts(*base, 6, ind, ens, ops, c);
                    let f = arg_ts(args@, 1, ind, ens, ops, b.1);
                    let init = arg_ts(args@, 0, ind, ens, ops, f.1);
                    Some((b.0 + ".reduce("@ + f.0 + ", "@ + init.0 + ")"@, init.1))
                } else if m == "any"@ || m == "all"@ {
                    let b = expr_ts(*base, 6, ind, ens, ops, c);
                    let a = args_ts(args@, args@.len(), ind, ens, ops, b.1);
                    Some((b.0 + "."@ + (if m == "any"@ { "some"@ } else { "every"@ }) + "("@ + a.0 + ")"@, a.1))
                } else {
                    None
                }
            } else {
                None
            },
            _ => None,
        },
        _ => None,
    }
}

/// A call (see `emit_call`): `old(x)` reads back the next capture, a list
/// method becomes its array operation, anything else is called as written.
#[verifier::opaque]
pub open spec fn call_ts(e: Expr, ind: usize, ens: bool, ops: Seq<(u32, u32)>, c: (usize, usize))
    -> (Seq<char>, (usize, usize))
    decreases e, 1nat,
{
    match e {
        Expr::Call { callee, args, .. } => {
            if (*callee matches Expr::Name { name, .. } && name@ == "old"@) {
                ("kei$old$"@ + decimal(c.0 as nat), (bump(c.0), c.1))
            } else {
                match list_call_ts(e, ind, ens, ops, c) {
                    Some(r) => r,
                    None => {
                        let f = expr_ts(*callee, 6, ind, ens, ops, c);
                        let a = args_ts(args@, args@.len(), ind, ens, ops, f.1);
                        (f.0 + "("@ + a.0 + ")"@, a.1)
                    },
                }
            }
        },
        _ => (Seq::empty(), c),
    }
}

/// A binary expression (see `emit_binary`).
#[verifier::opaque]
pub open spec fn binary_ts(e: Expr, parent: nat, ind: usize, ens: bool, ops: Seq<(u32, u32)>, c: (usize, usize))
    -> (Seq<char>, (usize, usize))
    decreases e, 1nat,
{
    match e {
        Expr::Binary { op, lhs, rhs, .. } => {
            let p = ts_prec(op);
            let inner = if op == BinOp::Implies {
                let l = expr_ts(*lhs, 0, ind, ens, ops, c);
                let r = expr_ts(*rhs, 0, ind, ens, ops, l.1);
                ("!("@ + l.0 + ") || "@ + r.0, r.1)
            } else if op == BinOp::Div {
                let l = expr_ts(*lhs, 4, ind, ens, ops, c);
                let r = expr_ts(*rhs, 5, ind, ens, ops, l.1);
                ("Math.trunc("@ + l.0 + " / "@ + r.0 + ")"@, r.1)
            } else {
                let l = expr_ts(*lhs, p, ind, ens, ops, c);
                let r = expr_ts(*rhs, p + 1, ind, ens, ops, l.1);
                (l.0 + " "@ + ts_op_text(op) + " "@ + r.0, r.1)
            };
            (wrap(parent > p, inner.0), inner.1)
        },
        _ => (Seq::empty(), c),
    }
}

/// One field of a record literal: `name` or `name: value`.
#[verifier::opaque]
pub open spec fn rfield_ts(f: ast::RecordLitField, ind: usize, ens: bool, ops: Seq<(u32, u32)>, c: (usize, usize))
    -> (Seq<char>, (usize, usize))
    decreases f, 0nat,
{
    match f.value {
        None => (f.name.name@, c),
        Some(v) => {
            let x = expr_ts(v, 0, ind, ens, ops, c);
            (f.name.name@ + ": "@ + x.0, x.1)
        },
    }
}

/// The first `n` fields of a record literal, joined with `, `.
#[verifier::opaque]
pub open spec fn rfields_ts(fs: Seq<ast::RecordLitField>, n: nat, ind: usize, ens: bool, ops: Seq<(u32, u32)>, c: (usize, usize))
    -> (Seq<char>, (usize, usize))
    decreases fs, n,
{
    if n == 0 || n > fs.len() {
        (Seq::empty(), c)
    } else if n == 1 {
        rfield_ts(fs[0], ind, ens, ops, c)
    } else {
        let p = rfields_ts(fs, (n - 1) as nat, ind, ens, ops, c);
        let x = rfield_ts(fs[n - 1], ind, ens, ops, p.1);
        (p.0 + ", "@ + x.0, x.1)
    }
}

/// Whether a pattern's constructor is `Some` or `Ok` (`ok` set, the value in `value`).
pub open spec fn pat_is_ok(pat: Pattern) -> bool {
    pat.path@.len() == 1 && (pat.path@[0].name@ == "Some"@ || pat.path@[0].name@ == "Ok"@)
}

/// Whether a pattern's constructor is `None` or `Err` (`ok` clear).
pub open spec fn pat_is_not_ok(pat: Pattern) -> bool {
    pat.path@.len() == 1 && (pat.path@[0].name@ == "None"@ || pat.path@[0].name@ == "Err"@)
}

/// The test that selects a pattern's constructor.
#[verifier::opaque]
pub open spec fn arm_cond(var: Seq<char>, pat: Pattern) -> Seq<char> {
    let n = pat.path@.len();
    if pat_is_ok(pat) {
        var + ".ok"@
    } else if pat_is_not_ok(pat) {
        "!"@ + var + ".ok"@
    } else {
        var + ".kind === "@ + json_quote(if n > 0 { pat.path@[n - 1].name@ } else { ""@ })
    }
}

/// The `const` lines binding the first `n` positional names of an enum pattern.
#[verifier::opaque]
pub open spec fn tuple_binding_lines(var: Seq<char>, bs: Seq<Ident>, n: nat, ind: usize) -> Seq<char>
    decreases n,
{
    if n == 0 || n > bs.len() {
        Seq::empty()
    } else {
        tuple_binding_lines(var, bs, (n - 1) as nat, ind)
            + indent_of(ind) + "const "@ + bs[n - 1].name@ + " = "@ + var + ".values["@ + decimal((n - 1) as nat) + "];"@ + nl()
    }
}

/// The `const` lines binding the first `n` field names of a record pattern.
#[verifier::opaque]
pub open spec fn field_binding_lines(var: Seq<char>, fs: Seq<Ident>, n: nat, ind: usize) -> Seq<char>
    decreases n,
{
    if n == 0 || n > fs.len() {
        Seq::empty()
    } else {
        field_binding_lines(var, fs, (n - 1) as nat, ind)
            + indent_of(ind) + "const "@ + fs[n - 1].name@ + " = "@ + var + ".fields."@ + fs[n - 1].name@ + ";"@ + nl()
    }
}

/// The lines that bind a pattern's names to the parts of `var`.
#[verifier::opaque]
pub open spec fn binding_lines(var: Seq<char>, pat: Pattern, ind: usize) -> Seq<char> {
    let is_err = pat.path@.len() == 1 && pat.path@[0].name@ == "Err"@;
    match pat.payload {
        PatternPayload::Tuple { bindings } => if pat_is_ok(pat) || is_err {
            if bindings@.len() > 0 {
                indent_of(ind) + "const "@ + bindings@[0].name@ + " = "@ + var + (if is_err { ".error;"@ } else { ".value;"@ }) + nl()
            } else {
                Seq::empty()
            }
        } else {
            tuple_binding_lines(var, bindings@, bindings@.len(), ind)
        },
        PatternPayload::Record { fields } => field_binding_lines(var, fields@, fields@.len(), ind),
        PatternPayload::Unit => Seq::empty(),
    }
}

/// One arm of a lowered `match` (its lines at indentation `ind`).
#[verifier::opaque]
pub open spec fn arm_ts(arm: ast::MatchArm, var: Seq<char>, ind: usize, ens: bool, ops: Seq<(u32, u32)>, c: (usize, usize))
    -> (Seq<char>, (usize, usize))
    decreases arm, 0nat,
{
    let inner = bump(ind);
    let b = expr_ts(arm.body, 0, inner, ens, ops, c);
    (indent_of(ind) + "if ("@ + arm_cond(var, arm.pattern) + ") {"@ + nl()
        + binding_lines(var, arm.pattern, inner)
        + indent_of(inner) + "return "@ + b.0 + ";"@ + nl()
        + indent_of(ind) + "}"@ + nl(), b.1)
}

/// The first `n` arms of a lowered `match`.
#[verifier::opaque]
pub open spec fn arms_ts(arms: Seq<ast::MatchArm>, n: nat, var: Seq<char>, ind: usize, ens: bool, ops: Seq<(u32, u32)>, c: (usize, usize))
    -> (Seq<char>, (usize, usize))
    decreases arms, n,
{
    if n == 0 || n > arms.len() {
        (Seq::empty(), c)
    } else {
        let p = arms_ts(arms, (n - 1) as nat, var, ind, ens, ops, c);
        let x = arm_ts(arms[n - 1], var, ind, ens, ops, p.1);
        (p.0 + x.0, x.1)
    }
}

/// A `match`, lowered to an arrow function called at once (see `emit_match`).
#[verifier::opaque]
pub open spec fn match_ts(e: Expr, ind: usize, ens: bool, ops: Seq<(u32, u32)>, c: (usize, usize))
    -> (Seq<char>, (usize, usize))
    decreases e, 1nat,
{
    match e {
        Expr::Match { scrutinee, arms, .. } => {
            let var = "kei$m"@ + decimal(c.1 as nat);
            let inner = bump(ind);
            let s = expr_ts(*scrutinee, 0, inner, ens, ops, (c.0, bump(c.1)));
            let a = arms_ts(arms@, arms@.len(), var, inner, ens, ops, s.1);
            ("(() => {"@ + nl()
                + indent_of(inner) + "const "@ + var + " = "@ + s.0 + ";"@ + nl()
                + a.0
                + indent_of(inner) + "throw new Error(\"non-exhaustive match\");"@ + nl()
                + indent_of(ind) + "})()"@, a.1)
        },
        _ => (Seq::empty(), c),
    }
}

// ---------------------------------------------------------------------------
// The text of statements
// ---------------------------------------------------------------------------

/// The type annotation of a `let` (`: T`), if it has one.
pub open spec fn let_annotation(l: ast::LetStmt) -> Seq<char> {
    match l.ty {
        Some(t) => ": "@ + ts_type_text(t),
        None => Seq::empty(),
    }
}

/// A `let` at indentation `ind` (see `emit_let`).
#[verifier::opaque]
pub open spec fn let_ts(l: ast::LetStmt, ind: usize, ens: bool, ops: Seq<(u32, u32)>, c: (usize, usize))
    -> (Seq<char>, (usize, usize))
{
    let name = l.name.name@;
    let v = expr_ts(l.value, 0, ind, ens, ops, c);
    match l.else_fail {
        None => (indent_of(ind) + "const "@ + name + let_annotation(l) + " = "@ + v.0 + ";"@ + nl(), v.1),
        Some(fail) => {
            let f = expr_ts(fail, 0, bump(ind), ens, ops, v.1);
            (indent_of(ind) + "const "@ + name + "$ = "@ + v.0 + ";"@ + nl()
                + indent_of(ind) + "if (!"@ + name + "$.ok) {"@ + nl()
                + indent_of(bump(ind)) + "return Err("@ + f.0 + ");"@ + nl()
                + indent_of(ind) + "}"@ + nl()
                + indent_of(ind) + "const "@ + name + let_annotation(l) + " = "@ + name + "$.value;"@ + nl(), f.1)
        },
    }
}

/// One statement at indentation `ind`.
#[verifier::opaque]
pub open spec fn stmt_ts(s: ast::Stmt, ind: usize, ens: bool, ops: Seq<(u32, u32)>, c: (usize, usize))
    -> (Seq<char>, (usize, usize))
    decreases s, 1nat,
{
    match s {
        ast::Stmt::Let(l) => let_ts(l, ind, ens, ops, c),
        ast::Stmt::If(i) => {
            let x = if_ts(i, ind, ens, ops, c);
            (indent_of(ind) + x.0, x.1)
        },
        ast::Stmt::Return(r) => match r.value {
            Some(v) => {
                let x = expr_ts(v, 0, ind, ens, ops, c);
                (indent_of(ind) + "return "@ + x.0 + ";"@ + nl(), x.1)
            },
            None => (indent_of(ind) + "return;"@ + nl(), c),
        },
        ast::Stmt::Expr(e) => {
            let x = expr_ts(e.expr, 0, ind, ens, ops, c);
            (indent_of(ind) + x.0 + ";"@ + nl(), x.1)
        },
    }
}

/// An `if` from the point where its line is already indented: the branches
/// one level deeper, `else if` chained on the closing line.
#[verifier::opaque]
pub open spec fn if_ts(i: ast::IfStmt, ind: usize, ens: bool, ops: Seq<(u32, u32)>, c: (usize, usize))
    -> (Seq<char>, (usize, usize))
    decreases i, 0nat,
{
    let cond = expr_ts(i.cond, 0, ind, ens, ops, c);
    let then = block_ts(i.then_block, bump(ind), ens, ops, cond.1);
    let head = "if ("@ + cond.0 + ") {"@ + nl() + then.0;
    match i.else_branch {
        None => (head + indent_of(ind) + "}"@ + nl(), then.1),
        Some(ast::ElseBranch::If(nested)) => {
            let x = if_ts(*nested, ind, ens, ops, then.1);
            (head + indent_of(ind) + "} else "@ + x.0, x.1)
        },
        Some(ast::ElseBranch::Block(b)) => {
            let x = block_ts(b, bump(ind), ens, ops, then.1);
            (head + indent_of(ind) + "} else {"@ + nl() + x.0 + indent_of(ind) + "}"@ + nl(), x.1)
        },
    }
}

/// The statements of a block at indentation `ind`.
#[verifier::opaque]
pub open spec fn block_ts(b: ast::Block, ind: usize, ens: bool, ops: Seq<(u32, u32)>, c: (usize, usize))
    -> (Seq<char>, (usize, usize))
    decreases b, 1nat,
{
    stmts_ts(b.stmts@, b.stmts@.len(), ind, ens, ops, c)
}

/// The first `n` statements at indentation `ind`.
#[verifier::opaque]
pub open spec fn stmts_ts(ss: Seq<ast::Stmt>, n: nat, ind: usize, ens: bool, ops: Seq<(u32, u32)>, c: (usize, usize))
    -> (Seq<char>, (usize, usize))
    decreases ss, n,
{
    if n == 0 || n > ss.len() {
        (Seq::empty(), c)
    } else {
        let p = stmts_ts(ss, (n - 1) as nat, ind, ens, ops, c);
        let x = stmt_ts(ss[n - 1], ind, ens, ops, p.1);
        (p.0 + x.0, x.1)
    }
}

// ---------------------------------------------------------------------------
// The text of functions
// ---------------------------------------------------------------------------

/// The effects of a `uses` clause, joined with `, `.
pub open spec fn uses_text(us: Seq<ast::EffectRef>, n: nat) -> Seq<char>
    decreases n,
{
    if n == 0 || n > us.len() {
        Seq::empty()
    } else if n == 1 {
        path_text(us[0].path@, us[0].path@.len())
    } else {
        uses_text(us, (n - 1) as nat) + ", "@ + path_text(us[n - 1].path@, us[n - 1].path@.len())
    }
}

/// One doc line per clause: `label` and the clause's canonical Kei text.
pub open spec fn clause_doc_lines(cs: Seq<Expr>, n: nat, label: Seq<char>) -> Seq<char>
    decreases n,
{
    if n == 0 || n > cs.len() {
        Seq::empty()
    } else {
        clause_doc_lines(cs, (n - 1) as nat, label) + label + expr_text(cs[n - 1]) + nl()
    }
}

/// The doc comment of a function: its `uses`, `requires` and `ensures`
/// (none when it has no clause at all).
pub open spec fn doc_ts(f: ast::FuncDecl) -> Seq<char> {
    if f.uses@.len() == 0 && f.requires@.len() == 0 && f.ensures@.len() == 0 {
        Seq::empty()
    } else {
        "/**"@ + nl()
            + (if f.uses@.len() > 0 { " * uses "@ + uses_text(f.uses@, f.uses@.len()) + nl() } else { Seq::empty() })
            + clause_doc_lines(f.requires@, f.requires@.len(), " * requires "@)
            + clause_doc_lines(f.ensures@, f.ensures@.len(), " * ensures "@)
            + " */"@ + nl()
    }
}

/// The parameters of a signature: `name: T`, joined with `, `.
pub open spec fn params_text(ps: Seq<ast::Param>, n: nat) -> Seq<char>
    decreases n,
{
    if n == 0 || n > ps.len() {
        Seq::empty()
    } else if n == 1 {
        ps[0].name.name@ + ": "@ + ts_type_text(ps[0].ty)
    } else {
        params_text(ps, (n - 1) as nat) + ", "@ + ps[n - 1].name.name@ + ": "@ + ts_type_text(ps[n - 1].ty)
    }
}

/// The return type of a signature (`void` when there is none).
pub open spec fn ret_text(f: ast::FuncDecl) -> Seq<char> {
    match f.ret {
        Some(t) => ts_type_text(t),
        None => "void"@,
    }
}

/// A line of text at indentation `k`.
#[verifier::opaque]
pub open spec fn tline(k: usize, t: Seq<char>) -> Seq<char> {
    indent_of(k) + t + nl()
}

proof fn lemma_tline(k: usize, t: Seq<char>)
    ensures
        tline(k, t) == repeat_text("  "@, k as nat) + t + seq!['\n'],
{
    reveal(tline);
}

/// The lines of a contract check after its condition: the violation's
/// fields and the closing brackets.
pub open spec fn check_tail(clause: Expr, kind: Seq<char>, func: Seq<char>, file: Seq<char>, ind: usize) -> Seq<char> {
    let i1 = bump(ind);
    let i2 = bump(i1);
    let sp = expr_span(clause);
    tline(i2, "clause: \""@ + kind + "\","@)
        + tline(i2, "func: \""@ + func + "\","@)
        + tline(i2, "condition: "@ + json_quote(expr_text(clause)) + ","@)
        + tline(i2, "file: "@ + json_quote(file) + ","@)
        + tline(i2, "line: "@ + int_text(sp.start.line as int) + ","@)
        + tline(i2, "col: "@ + int_text(sp.start.col as int) + ","@)
        + tline(i1, "});"@)
        + tline(ind, "}"@)
}

/// The runtime check of one contract clause at indentation `ind` (see
/// `emit_contract_check`).
#[verifier::opaque]
pub open spec fn check_ts(clause: Expr, kind: Seq<char>, func: Seq<char>, file: Seq<char>, ind: usize, ens: bool,
    ops: Seq<(u32, u32)>, c: (usize, usize)) -> (Seq<char>, (usize, usize))
{
    let x = expr_ts(clause, 0, ind, ens, ops, c);
    (indent_of(ind) + "if (!("@ + x.0 + ")) {"@ + nl()
        + tline(bump(ind), "throw new KeiContractViolation({"@)
        + check_tail(clause, kind, func, file, ind), x.1)
}

/// The checks of the first `n` clauses.
#[verifier::opaque]
pub open spec fn checks_ts(cs: Seq<Expr>, n: nat, kind: Seq<char>, func: Seq<char>, file: Seq<char>, ind: usize, ens: bool,
    ops: Seq<(u32, u32)>, c: (usize, usize)) -> (Seq<char>, (usize, usize))
    decreases n,
{
    if n == 0 || n > cs.len() {
        (Seq::empty(), c)
    } else {
        let p = checks_ts(cs, (n - 1) as nat, kind, func, file, ind, ens, ops, c);
        let x = check_ts(cs[n - 1], kind, func, file, ind, ens, ops, p.1);
        (p.0 + x.0, x.1)
    }
}

/// The arguments of the `old(...)` calls in `e`, in a left-to-right walk
/// (list literals are not entered).
pub open spec fn olds_in(e: Expr) -> Seq<Expr>
    decreases e, 1nat,
{
    match e {
        Expr::Call { callee, args, .. } => if (*callee matches Expr::Name { name, .. } && name@ == "old"@) {
            if args@.len() > 0 { seq![args@[0]] } else { Seq::empty() }
        } else {
            olds_in(*callee) + olds_in_all(args@, args@.len())
        },
        Expr::Field { base, .. } => olds_in(*base),
        Expr::Unary { expr, .. } => olds_in(*expr),
        Expr::Binary { lhs, rhs, .. } => olds_in(*lhs) + olds_in(*rhs),
        Expr::RecordLit { fields, .. } => olds_in_fields(fields@, fields@.len()),
        Expr::Match { scrutinee, arms, .. } => olds_in(*scrutinee) + olds_in_arms(arms@, arms@.len()),
        _ => Seq::empty(),
    }
}

/// The `old(...)` arguments in the first `n` expressions.
pub open spec fn olds_in_all(es: Seq<Expr>, n: nat) -> Seq<Expr>
    decreases es, n,
{
    if n == 0 || n > es.len() { Seq::empty() } else { olds_in_all(es, (n - 1) as nat) + olds_in(es[n - 1]) }
}

pub open spec fn olds_in_field(f: ast::RecordLitField) -> Seq<Expr>
    decreases f, 0nat,
{
    match f.value {
        Some(v) => olds_in(v),
        None => Seq::empty(),
    }
}

pub open spec fn olds_in_fields(fs: Seq<ast::RecordLitField>, n: nat) -> Seq<Expr>
    decreases fs, n,
{
    if n == 0 || n > fs.len() { Seq::empty() } else { olds_in_fields(fs, (n - 1) as nat) + olds_in_field(fs[n - 1]) }
}

pub open spec fn olds_in_arm(a: ast::MatchArm) -> Seq<Expr>
    decreases a, 0nat,
{
    olds_in(a.body)
}

pub open spec fn olds_in_arms(arms: Seq<ast::MatchArm>, n: nat) -> Seq<Expr>
    decreases arms, n,
{
    if n == 0 || n > arms.len() { Seq::empty() } else { olds_in_arms(arms, (n - 1) as nat) + olds_in_arm(arms[n - 1]) }
}

/// The captures of the first `n` `old(...)` arguments, `kei$old$<k>` each.
#[verifier::opaque]
pub open spec fn old_lines(olds: Seq<Expr>, n: nat, ind: usize, ens: bool, ops: Seq<(u32, u32)>, c: (usize, usize))
    -> (Seq<char>, (usize, usize))
    decreases n,
{
    if n == 0 || n > olds.len() {
        (Seq::empty(), c)
    } else {
        let p = old_lines(olds, (n - 1) as nat, ind, ens, ops, c);
        let x = expr_ts(olds[n - 1], 0, ind, ens, ops, p.1);
        (p.0 + indent_of(ind) + "const kei$old$"@ + decimal((n - 1) as nat) + " = "@ + x.0 + ";"@ + nl(), x.1)
    }
}

/// The signature line of a function.
pub open spec fn signature_text(f: ast::FuncDecl) -> Seq<char> {
    "export function "@ + f.name.name@ + "("@ + params_text(f.params@, f.params@.len()) + "): "@ + ret_text(f) + " {"@ + nl()
}

/// A top-level function (see `emit_func`): the doc comment, the signature,
/// the `requires` checks, the `old(...)` captures, then the body; with
/// `ensures`, the body runs in an arrow function whose result the `ensures`
/// checks (which number the captures from 0 again) read as `result`.
pub open spec fn func_ts(f: ast::FuncDecl, file: Seq<char>, ops: Seq<(u32, u32)>, c: (usize, usize)) -> (Seq<char>, (usize, usize)) {
    let name = f.name.name@;
    let req = checks_ts(f.requires@, f.requires@.len(), "requires"@, name, file, 1, false, ops, c);
    let olds = olds_in_all(f.ensures@, f.ensures@.len());
    let ol = old_lines(olds, olds.len(), 1, false, ops, req.1);
    let head = doc_ts(f) + signature_text(f) + req.0 + ol.0;
    if f.ensures@.len() == 0 {
        let body = block_ts(f.body, 1, false, ops, ol.1);
        (head + body.0 + "}"@ + nl(), body.1)
    } else {
        let body = block_ts(f.body, 2, false, ops, ol.1);
        let bc = body.1;
        let ens = checks_ts(f.ensures@, f.ensures@.len(), "ensures"@, name, file, 1, true, ops, (0, bc.1));
        (head + indent_of(1) + "const kei$result = ((): "@ + ret_text(f) + " => {"@ + nl() + body.0
            + indent_of(1) + "})();"@ + nl() + ens.0 + indent_of(1) + "return kei$result;"@ + nl() + "}"@ + nl(), ens.1)
    }
}

/// The state an emission threads through a module: the next `old(...)`
/// capture, whether `result` names the checked return value, and the next
/// match scrutinee variable.
struct EmitState {
    old_counter: usize,
    in_ensures: bool,
    match_counter: usize,
}

fn push_usize(s: &mut String, n: usize)
    ensures
        final(s)@ == old(s)@ + decimal(n as nat),
{
    let t = u64_string(n as u64);
    push_str(s, t.as_str());
}

/// The counters of an emission state.
spec fn counters(s: EmitState) -> (usize, usize) {
    (s.old_counter, s.match_counter)
}

/// The emission from `(o0, s0)` to `(o1, s1)` wrote `r.0` and left the
/// counters at `r.1`.
spec fn wrote(o0: Out, s0: EmitState, o1: Out, s1: EmitState, r: (Seq<char>, (usize, usize))) -> bool {
    &&& o1.buf@ == o0.buf@ + r.0
    &&& counters(s1) == r.1
    &&& s1.in_ensures == s0.in_ensures
}

#[verifier::rlimit(100)]
#[verifier::spinoff_prover]
fn emit_expr(out: &mut Out, st: &mut EmitState, ops: &Vec<(u32, u32)>, e: &Expr, parent: u8)
    requires
        out_wf(*old(out)),
    ensures
        out_wf(*final(out)),
        final(out).indent == old(out).indent,
        final(out).fixed == old(out).fixed,
        wrote(*old(out), *old(st), *final(out), *final(st),
            expr_ts(*e, parent as nat, old(out).indent, old(st).in_ensures, ops@, counters(*old(st)))),
    decreases *e, 3nat,
{
    reveal(expr_ts);
    reveal(args_ts);
    reveal(arg_ts);
    reveal(call_ts);
    reveal(list_call_ts);
    reveal(binary_ts);
    reveal(rfield_ts);
    reveal(rfields_ts);
    reveal(arm_ts);
    reveal(arms_ts);
    reveal(match_ts);
    let ghost b0 = out.buf@;
    let ghost c0 = counters(*st);
    let ghost ens = st.in_ensures;
    let ghost ind = out.indent;
    match e {
        Expr::Int { value, .. } => {
            let mut t = String::new();
            push_i64(&mut t, *value);
            out.frag(t.as_str());
            assert(out.buf@ =~= b0 + int_text(*value as int));
        },
        Expr::Str { value, .. } => {
            let t = json_string(value.as_str());
            out.frag(t.as_str());
        },
        Expr::Bool { value, .. } => {
            out.frag(if *value { "true" } else { "false" });
        },
        Expr::Name { name, .. } => {
            if st.in_ensures && crate::text::str_eq(name.as_str(), "result") {
                out.frag("kei$result");
            } else {
                out.frag(name.as_str());
            }
        },
        Expr::Field { base, name, .. } => {
            emit_expr(out, st, ops, base, PREC_POSTFIX);
            let ghost b1 = out.buf@;
            out.frag(".");
            out.frag(name.name.as_str());
            proof {
                let x = expr_ts(**base, 6, ind, ens, ops@, c0);
                assert(out.buf@ =~= b0 + (x.0 + "."@ + name.name@));
            }
        },
        Expr::Call { .. } => emit_call(out, st, ops, e),
        Expr::Unary { op, expr, .. } => {
            let needs_paren = parent > PREC_UNARY;
            if needs_paren {
                out.frag("(");
            }
            match op {
                UnaryOp::Neg => out.frag("-"),
                UnaryOp::Not => out.frag("!"),
            }
            emit_expr(out, st, ops, expr, PREC_UNARY);
            if needs_paren {
                out.frag(")");
            }
            proof {
                let x = expr_ts(**expr, 5, ind, ens, ops@, c0);
                let o = match *op { UnaryOp::Neg => "-"@, UnaryOp::Not => "!"@ };
                assert(out.buf@ =~= b0 + wrap(parent > 5, o + x.0));
            }
        },
        Expr::Binary { .. } => emit_binary(out, st, ops, e, parent),
        Expr::RecordLit { path, fields, .. } => {
            let mut head = String::new();
            crate::notation::push_path(&mut head, path);
            push_str(&mut head, "({ ");
            out.frag(head.as_str());
            let ghost b1 = out.buf@;
            proof {
                reveal(expr_ts);
                reveal(args_ts);
                reveal(arg_ts);
                reveal(call_ts);
                reveal(list_call_ts);
                reveal(binary_ts);
                reveal(rfield_ts);
                reveal(rfields_ts);
                reveal(arm_ts);
                reveal(arms_ts);
                reveal(match_ts);
                assert(rfields_ts(fields@, 0, ind, ens, ops@, c0) == (Seq::<char>::empty(), c0));
                assert(b1 =~= b1 + rfields_ts(fields@, 0, ind, ens, ops@, c0).0);
            }
            let mut i: usize = 0;
            while i < fields.len()
                invariant
                    out_wf(*out),
                    out.indent == old(out).indent,
                    out.fixed == old(out).fixed,
                    *e is RecordLit,
                    e->RecordLit_fields == *fields,
                    i <= fields@.len(),
                    ind == out.indent,
                    ens == st.in_ensures,
                    out.buf@ == b1 + rfields_ts(fields@, i as nat, ind, ens, ops@, c0).0,
                    counters(*st) == rfields_ts(fields@, i as nat, ind, ens, ops@, c0).1,
                decreases fields@.len() - i,
            {
                let ghost bi = out.buf@;
                let ghost ci = counters(*st);
                if i > 0 {
                    out.frag(", ");
                }
                let ghost bs = out.buf@;
                let f = &fields[i];
                match &f.value {
                    None => out.frag(f.name.name.as_str()),
                    Some(v) => {
                        out.frag(f.name.name.as_str());
                        out.frag(": ");
                        proof {
                            assert(decreases_to!(fields@ => fields@[i as int]));
                            assert(decreases_to!(fields@[i as int] => fields@[i as int].value));
                        }
                        emit_expr(out, st, ops, v, PREC_OR);
                    },
                }
                proof {
                    reveal(expr_ts);
                    reveal(args_ts);
                    reveal(arg_ts);
                    reveal(call_ts);
                    reveal(list_call_ts);
                    reveal(binary_ts);
                    reveal(rfield_ts);
                    reveal(rfields_ts);
                    reveal(arm_ts);
                    reveal(arms_ts);
                    reveal(match_ts);
                    let x = rfield_ts(fields@[i as int], ind, ens, ops@, ci);
                    let p = rfields_ts(fields@, i as nat, ind, ens, ops@, c0);
                    assert(out.buf@ =~= bs + x.0);
                    assert(counters(*st) == x.1);
                    if i > 0 {
                        assert(rfields_ts(fields@, (i + 1) as nat, ind, ens, ops@, c0) == (p.0 + ", "@ + x.0, x.1));
                        assert(out.buf@ =~= b1 + (p.0 + ", "@ + x.0));
                    } else {
                        assert(rfields_ts(fields@, 1, ind, ens, ops@, c0) == x);
                        assert(out.buf@ =~= b1 + x.0);
                    }
                }
                i = i + 1;
            }
            out.frag(" })");
            proof {
                assert(out.buf@ =~= b0 + (path_text(path@, path@.len()) + "({ "@
                    + rfields_ts(fields@, fields@.len(), ind, ens, ops@, c0).0 + " })"@));
            }
        },
        Expr::Match { .. } => emit_match(out, st, ops, e),
        Expr::ListLit { elements, .. } => {
            out.frag("[");
            emit_args(out, st, ops, elements);
            out.frag("]");
            proof {
                let a = args_ts(elements@, elements@.len(), ind, ens, ops@, c0);
                assert(out.buf@ =~= b0 + ("["@ + a.0 + "]"@));
            }
        },
    }
}

/// The expressions of `args`, each at the loosest precedence, joined with `, `.
fn emit_args(out: &mut Out, st: &mut EmitState, ops: &Vec<(u32, u32)>, args: &Vec<Expr>)
    requires
        out_wf(*old(out)),
    ensures
        out_wf(*final(out)),
        final(out).indent == old(out).indent,
        final(out).fixed == old(out).fixed,
        wrote(*old(out), *old(st), *final(out), *final(st),
            args_ts(args@, args@.len(), old(out).indent, old(st).in_ensures, ops@, counters(*old(st)))),
    decreases args@, 0nat,
{
    reveal(expr_ts);
    reveal(args_ts);
    reveal(arg_ts);
    reveal(call_ts);
    reveal(list_call_ts);
    reveal(binary_ts);
    reveal(rfield_ts);
    reveal(rfields_ts);
    reveal(arm_ts);
    reveal(arms_ts);
    reveal(match_ts);
    let ghost b0 = out.buf@;
    let ghost c0 = counters(*st);
    let ghost ens = st.in_ensures;
    let ghost ind = out.indent;
    proof {
        reveal(expr_ts);
        reveal(args_ts);
        reveal(arg_ts);
        reveal(call_ts);
        reveal(list_call_ts);
        reveal(binary_ts);
        reveal(rfield_ts);
        reveal(rfields_ts);
        reveal(arm_ts);
        reveal(arms_ts);
        reveal(match_ts);
        assert(args_ts(args@, 0, ind, ens, ops@, c0) == (Seq::<char>::empty(), c0));
    }
    let mut i: usize = 0;
    while i < args.len()
        invariant
            out_wf(*out),
            out.indent == old(out).indent,
            out.fixed == old(out).fixed,
            i <= args@.len(),
            ind == out.indent,
            ens == st.in_ensures,
            out.buf@ == b0 + args_ts(args@, i as nat, ind, ens, ops@, c0).0,
            counters(*st) == args_ts(args@, i as nat, ind, ens, ops@, c0).1,
        decreases args@.len() - i,
    {
        if i > 0 {
            out.frag(", ");
        }
        let ghost bs = out.buf@;
        let ghost cs = counters(*st);
        assert(decreases_to!(args@ => args@[i as int]));
        emit_expr(out, st, ops, &args[i], PREC_OR);
        proof {
            reveal(expr_ts);
            reveal(args_ts);
            reveal(arg_ts);
            reveal(call_ts);
            reveal(list_call_ts);
            reveal(binary_ts);
            reveal(rfield_ts);
            reveal(rfields_ts);
            reveal(arm_ts);
            reveal(arms_ts);
            reveal(match_ts);
            let x = expr_ts(args@[i as int], 0, ind, ens, ops@, cs);
            let p = args_ts(args@, i as nat, ind, ens, ops@, c0);
            if i > 0 {
                assert(args_ts(args@, (i + 1) as nat, ind, ens, ops@, c0) == (p.0 + ", "@ + x.0, x.1));
                assert(out.buf@ =~= b0 + (p.0 + ", "@ + x.0));
            } else {
                assert(args_ts(args@, 0, ind, ens, ops@, c0).1 == c0);
                assert(cs == c0);
                assert(args_ts(args@, 1, ind, ens, ops@, c0) == expr_ts(args@[0], 0, ind, ens, ops@, c0));
                assert(args_ts(args@, 1, ind, ens, ops@, c0) == x);
                assert(out.buf@ =~= b0 + x.0);
            }
        }
        i = i + 1;
    }
}






/// `e` calls method `m` at a position the checker established as a list operation.
spec fn list_call_named(e: Expr, ops: Seq<(u32, u32)>, m: Seq<char>) -> bool {
    e matches Expr::Call { callee, .. } && *callee matches Expr::Field { name, .. }
        && ops.contains((name.span.start.line, name.span.start.col)) && name.name@ == m
}

/// The name of the method `e` calls (empty when `e` is no method call).
spec fn called_method(e: Expr) -> Seq<char> {
    match e {
        Expr::Call { callee, .. } => match *callee {
            Expr::Field { name, .. } => name.name@,
            _ => Seq::empty(),
        },
        _ => Seq::empty(),
    }
}

/// The emission wrote the list call `e` as `list_call_ts` describes it.
spec fn wrote_list_call(o0: Out, s0: EmitState, o1: Out, s1: EmitState, e: Expr, ops: Seq<(u32, u32)>) -> bool {
    &&& list_call_ts(e, o0.indent, s0.in_ensures, ops, counters(s0)) is Some
    &&& wrote(o0, s0, o1, s1, list_call_ts(e, o0.indent, s0.in_ensures, ops, counters(s0))->0)
}

#[verifier::rlimit(50)]
fn emit_list_get(out: &mut Out, st: &mut EmitState, ops: &Vec<(u32, u32)>, e: &Expr)
    requires
        out_wf(*old(out)),
        list_call_named(*e, ops@, "get"@),
    ensures
        out_wf(*final(out)),
        final(out).indent == old(out).indent,
        final(out).fixed == old(out).fixed,
        wrote_list_call(*old(out), *old(st), *final(out), *final(st), *e, ops@),
    decreases *e, 0nat,
{
    let ghost b0 = out.buf@;
    let ghost c0 = counters(*st);
    let ghost ens = st.in_ensures;
    let ghost ind = out.indent;
    if let Expr::Call { callee, args, .. } = e {
        if let Expr::Field { base, .. } = &**callee {
            assert(decreases_to!(*e => **callee));
            out.frag("keiListGet(");
            emit_expr(out, st, ops, base, PREC_OR);
            if args.len() > 0 {
                out.frag(", ");
            }
            emit_args(out, st, ops, args);
            out.frag(")");
            proof {
                let b = expr_ts(**base, 0, ind, ens, ops@, c0);
                let a = args_ts(args@, args@.len(), ind, ens, ops@, b.1);
                let t = "keiListGet("@ + b.0 + (if args@.len() > 0 { ", "@ } else { Seq::empty() }) + a.0 + ")"@;
                assert(out.buf@ =~= b0 + t);
                assert(list_call_ts(*e, ind, ens, ops@, c0) == Some((t, a.1))) by {
                    reveal(list_call_ts);
                    reveal(expr_ts);
                    reveal(args_ts);
                }
            }
        }
    }
}

#[verifier::rlimit(50)]
fn emit_list_is_empty(out: &mut Out, st: &mut EmitState, ops: &Vec<(u32, u32)>, e: &Expr)
    requires
        out_wf(*old(out)),
        list_call_named(*e, ops@, "isEmpty"@),
        called_method(*e) != "get"@,
    ensures
        out_wf(*final(out)),
        final(out).indent == old(out).indent,
        final(out).fixed == old(out).fixed,
        wrote_list_call(*old(out), *old(st), *final(out), *final(st), *e, ops@),
    decreases *e, 0nat,
{
    let ghost b0 = out.buf@;
    let ghost c0 = counters(*st);
    let ghost ens = st.in_ensures;
    let ghost ind = out.indent;
    if let Expr::Call { callee, .. } = e {
        if let Expr::Field { base, name, .. } = &**callee {
            assert(decreases_to!(*e => **callee));
            out.frag("(");
            emit_expr(out, st, ops, base, PREC_POSTFIX);
            out.frag(".length === 0)");
            proof {
                let b = expr_ts(**base, 6, ind, ens, ops@, c0);
                let t = "("@ + b.0 + ".length === 0)"@;
                assert(out.buf@ =~= b0 + t);
                assert(name.name@ != "get"@) by {
                    reveal_strlit("get");
                    reveal_strlit("isEmpty");
                    assert(name.name@.len() != 3);
                }
                assert(list_call_ts(*e, ind, ens, ops@, c0) == Some((t, b.1))) by {
                    reveal(list_call_ts);
                    reveal(expr_ts);
                }
            }
        }
    }
}

#[verifier::rlimit(50)]
fn emit_list_length(out: &mut Out, st: &mut EmitState, ops: &Vec<(u32, u32)>, e: &Expr)
    requires
        out_wf(*old(out)),
        list_call_named(*e, ops@, "length"@),
        called_method(*e) != "get"@ && called_method(*e) != "isEmpty"@,
    ensures
        out_wf(*final(out)),
        final(out).indent == old(out).indent,
        final(out).fixed == old(out).fixed,
        wrote_list_call(*old(out), *old(st), *final(out), *final(st), *e, ops@),
    decreases *e, 0nat,
{
    let ghost b0 = out.buf@;
    let ghost c0 = counters(*st);
    let ghost ens = st.in_ensures;
    let ghost ind = out.indent;
    if let Expr::Call { callee, .. } = e {
        if let Expr::Field { base, name, .. } = &**callee {
            assert(decreases_to!(*e => **callee));
            emit_expr(out, st, ops, base, PREC_POSTFIX);
            out.frag(".length");
            proof {
                let b = expr_ts(**base, 6, ind, ens, ops@, c0);
                let t = b.0 + ".length"@;
                assert(out.buf@ =~= b0 + t);
                assert(list_call_ts(*e, ind, ens, ops@, c0) == Some((t, b.1))) by {
                    reveal(list_call_ts);
                    reveal(expr_ts);
                }
            }
        }
    }
}

#[verifier::rlimit(50)]
fn emit_list_fold(out: &mut Out, st: &mut EmitState, ops: &Vec<(u32, u32)>, e: &Expr)
    requires
        out_wf(*old(out)),
        list_call_named(*e, ops@, "fold"@),
        called_method(*e) != "get"@ && called_method(*e) != "isEmpty"@ && called_method(*e) != "length"@,
        e matches Expr::Call { args, .. } && args@.len() == 2,
    ensures
        out_wf(*final(out)),
        final(out).indent == old(out).indent,
        final(out).fixed == old(out).fixed,
        wrote_list_call(*old(out), *old(st), *final(out), *final(st), *e, ops@),
    decreases *e, 0nat,
{
    let ghost b0 = out.buf@;
    let ghost c0 = counters(*st);
    let ghost ens = st.in_ensures;
    let ghost ind = out.indent;
    if let Expr::Call { callee, args, .. } = e {
        if let Expr::Field { base, name, .. } = &**callee {
            assert(decreases_to!(*e => **callee));
            emit_expr(out, st, ops, base, PREC_POSTFIX);
            out.frag(".reduce(");
            assert(decreases_to!(args@ => args@[1]));
            emit_expr(out, st, ops, &args[1], PREC_OR);
            out.frag(", ");
            assert(decreases_to!(args@ => args@[0]));
            emit_expr(out, st, ops, &args[0], PREC_OR);
            out.frag(")");
            proof {
                let b = expr_ts(**base, 6, ind, ens, ops@, c0);
                let f = expr_ts(args@[1], 0, ind, ens, ops@, b.1);
                let init = expr_ts(args@[0], 0, ind, ens, ops@, f.1);
                let t = b.0 + ".reduce("@ + f.0 + ", "@ + init.0 + ")"@;
                assert(out.buf@ =~= b0 + t);
                assert(list_call_ts(*e, ind, ens, ops@, c0) == Some((t, init.1))) by {
                    reveal(list_call_ts);
                    reveal(expr_ts);
                    reveal(arg_ts);
                }
            }
        }
    }
}

#[verifier::rlimit(50)]
fn emit_list_some_every(out: &mut Out, st: &mut EmitState, ops: &Vec<(u32, u32)>, e: &Expr, js: &str)
    requires
        out_wf(*old(out)),
        list_call_named(*e, ops@, "any"@) && js@ == "some"@
            || list_call_named(*e, ops@, "all"@) && called_method(*e) != "any"@ && js@ == "every"@,
        called_method(*e) != "get"@ && called_method(*e) != "isEmpty"@ && called_method(*e) != "length"@,
        called_method(*e) == "fold"@ ==> (e matches Expr::Call { args, .. } && args@.len() != 2),
    ensures
        out_wf(*final(out)),
        final(out).indent == old(out).indent,
        final(out).fixed == old(out).fixed,
        wrote_list_call(*old(out), *old(st), *final(out), *final(st), *e, ops@),
    decreases *e, 0nat,
{
    let ghost b0 = out.buf@;
    let ghost c0 = counters(*st);
    let ghost ens = st.in_ensures;
    let ghost ind = out.indent;
    if let Expr::Call { callee, args, .. } = e {
        if let Expr::Field { base, name, .. } = &**callee {
            assert(decreases_to!(*e => **callee));
            emit_expr(out, st, ops, base, PREC_POSTFIX);
            out.frag(".");
            out.frag(js);
            out.frag("(");
            emit_args(out, st, ops, args);
            out.frag(")");
            proof {
                let m = name.name@;
                let b = expr_ts(**base, 6, ind, ens, ops@, c0);
                let a = args_ts(args@, args@.len(), ind, ens, ops@, b.1);
                let t = b.0 + "."@ + (if m == "any"@ { "some"@ } else { "every"@ }) + "("@ + a.0 + ")"@;
                assert(out.buf@ =~= b0 + t);
                assert(list_call_ts(*e, ind, ens, ops@, c0) == Some((t, a.1))) by {
                    reveal(list_call_ts);
                    reveal(expr_ts);
                    reveal(args_ts);
                }
            }
        }
    }
}

/// A call of a list method (as the checker established it, by the position
/// of the method name), written as the matching array operation; `false`,
/// with nothing written, when the call is not one.
fn emit_list_call(out: &mut Out, st: &mut EmitState, ops: &Vec<(u32, u32)>, e: &Expr) -> (handled: bool)
    requires
        out_wf(*old(out)),
        e is Call,
    ensures
        out_wf(*final(out)),
        final(out).indent == old(out).indent,
        final(out).fixed == old(out).fixed,
        handled == list_call_ts(*e, old(out).indent, old(st).in_ensures, ops@, counters(*old(st))) is Some,
        handled ==> wrote(*old(out), *old(st), *final(out), *final(st),
            list_call_ts(*e, old(out).indent, old(st).in_ensures, ops@, counters(*old(st)))->0),
        !handled ==> *final(out) == *old(out) && *final(st) == *old(st),
    decreases *e, 1nat,
{
    let ghost c0 = counters(*st);
    let ghost ens = st.in_ensures;
    let ghost ind = out.indent;
    if let Expr::Call { callee, args, .. } = e {
        if let Expr::Field { name, .. } = &**callee {
            if is_list_op(ops, name.span.start) {
                let m = name.name.as_str();
                if crate::text::str_eq(m, "get") {
                    emit_list_get(out, st, ops, e);
                    return true;
                }
                if crate::text::str_eq(m, "isEmpty") {
                    emit_list_is_empty(out, st, ops, e);
                    return true;
                }
                if crate::text::str_eq(m, "length") {
                    emit_list_length(out, st, ops, e);
                    return true;
                }
                if crate::text::str_eq(m, "fold") && args.len() == 2 {
                    emit_list_fold(out, st, ops, e);
                    return true;
                }
                if crate::text::str_eq(m, "any") {
                    emit_list_some_every(out, st, ops, e, "some");
                    return true;
                }
                if crate::text::str_eq(m, "all") {
                    emit_list_some_every(out, st, ops, e, "every");
                    return true;
                }
                proof {
                    assert(list_call_ts(*e, ind, ens, ops@, c0) is None) by {
                        reveal(list_call_ts);
                    }
                }
                return false;
            }
        }
    }
    proof {
        assert(list_call_ts(*e, ind, ens, ops@, c0) is None) by {
            reveal(list_call_ts);
        }
    }
    false
}

/// A call. `old(e)` inside an `ensures` reads the value captured before the
/// body ran; a list method becomes the matching array operation.
fn emit_call(out: &mut Out, st: &mut EmitState, ops: &Vec<(u32, u32)>, e: &Expr)
    requires
        out_wf(*old(out)),
        e is Call,
    ensures
        out_wf(*final(out)),
        final(out).indent == old(out).indent,
        final(out).fixed == old(out).fixed,
        wrote(*old(out), *old(st), *final(out), *final(st),
            call_ts(*e, old(out).indent, old(st).in_ensures, ops@, counters(*old(st)))),
    decreases *e, 2nat,
{
    reveal(expr_ts);
    reveal(args_ts);
    reveal(arg_ts);
    reveal(call_ts);
    reveal(list_call_ts);
    reveal(binary_ts);
    reveal(rfield_ts);
    reveal(rfields_ts);
    reveal(arm_ts);
    reveal(arms_ts);
    reveal(match_ts);
    let ghost b0 = out.buf@;
    let ghost c0 = counters(*st);
    let ghost ens = st.in_ensures;
    let ghost ind = out.indent;
    if let Expr::Call { callee, args, .. } = e {
        if let Expr::Name { name, .. } = &**callee {
            if crate::text::str_eq(name.as_str(), "old") {
                let mut t = String::new();
                push_str(&mut t, "kei$old$");
                push_usize(&mut t, st.old_counter);
                st.old_counter = st.old_counter.saturating_add(1);
                out.frag(t.as_str());
                return;
            }
        }
        if emit_list_call(out, st, ops, e) {
            return;
        }
        emit_expr(out, st, ops, callee, PREC_POSTFIX);
        out.frag("(");
        emit_args(out, st, ops, args);
        out.frag(")");
        proof {
            let f = expr_ts(**callee, 6, ind, ens, ops@, c0);
            let a = args_ts(args@, args@.len(), ind, ens, ops@, f.1);
            assert(out.buf@ =~= b0 + (f.0 + "("@ + a.0 + ")"@));
        }
    }
}

/// The text of the two operands of a binary expression and what joins
/// them, before any parentheses (see [`binary_ts`]).
spec fn binary_inner(e: Expr, ind: usize, ens: bool, ops: Seq<(u32, u32)>, c: (usize, usize)) -> (Seq<char>, (usize, usize)) {
    match e {
        Expr::Binary { op, lhs, rhs, .. } => if op == BinOp::Implies {
            let l = expr_ts(*lhs, 0, ind, ens, ops, c);
            let r = expr_ts(*rhs, 0, ind, ens, ops, l.1);
            ("!("@ + l.0 + ") || "@ + r.0, r.1)
        } else if op == BinOp::Div {
            let l = expr_ts(*lhs, 4, ind, ens, ops, c);
            let r = expr_ts(*rhs, 5, ind, ens, ops, l.1);
            ("Math.trunc("@ + l.0 + " / "@ + r.0 + ")"@, r.1)
        } else {
            let p = ts_prec(op);
            let l = expr_ts(*lhs, p, ind, ens, ops, c);
            let r = expr_ts(*rhs, p + 1, ind, ens, ops, l.1);
            (l.0 + " "@ + ts_op_text(op) + " "@ + r.0, r.1)
        },
        _ => (Seq::empty(), c),
    }
}

proof fn lemma_binary_ts(e: Expr, parent: nat, ind: usize, ens: bool, ops: Seq<(u32, u32)>, c: (usize, usize))
    requires
        e is Binary,
    ensures
        binary_ts(e, parent, ind, ens, ops, c)
            == (wrap(parent > ts_prec(e->Binary_op), binary_inner(e, ind, ens, ops, c).0), binary_inner(e, ind, ens, ops, c).1),
{
    reveal(binary_ts);
    reveal(expr_ts);
}

fn emit_implies(out: &mut Out, st: &mut EmitState, ops: &Vec<(u32, u32)>, e: &Expr)
    requires
        out_wf(*old(out)),
        e matches Expr::Binary { op, .. } && op == BinOp::Implies,
    ensures
        out_wf(*final(out)),
        final(out).indent == old(out).indent,
        final(out).fixed == old(out).fixed,
        wrote(*old(out), *old(st), *final(out), *final(st),
            binary_inner(*e, old(out).indent, old(st).in_ensures, ops@, counters(*old(st)))),
    decreases *e, 0nat,
{
    let ghost b0 = out.buf@;
    if let Expr::Binary { lhs, rhs, .. } = e {
        out.frag("!(");
        emit_expr(out, st, ops, lhs, PREC_OR);
        out.frag(") || ");
        emit_expr(out, st, ops, rhs, PREC_OR);
        proof {
            let x = binary_inner(*e, old(out).indent, old(st).in_ensures, ops@, counters(*old(st)));
            assert(out.buf@ =~= b0 + x.0);
        }
    }
}

fn emit_div(out: &mut Out, st: &mut EmitState, ops: &Vec<(u32, u32)>, e: &Expr)
    requires
        out_wf(*old(out)),
        e matches Expr::Binary { op, .. } && op == BinOp::Div,
    ensures
        out_wf(*final(out)),
        final(out).indent == old(out).indent,
        final(out).fixed == old(out).fixed,
        wrote(*old(out), *old(st), *final(out), *final(st),
            binary_inner(*e, old(out).indent, old(st).in_ensures, ops@, counters(*old(st)))),
    decreases *e, 0nat,
{
    let ghost b0 = out.buf@;
    if let Expr::Binary { lhs, rhs, .. } = e {
        out.frag("Math.trunc(");
        emit_expr(out, st, ops, lhs, PREC_MUL);
        out.frag(" / ");
        emit_expr(out, st, ops, rhs, PREC_UNARY);
        out.frag(")");
        proof {
            let x = binary_inner(*e, old(out).indent, old(st).in_ensures, ops@, counters(*old(st)));
            assert(out.buf@ =~= b0 + x.0);
        }
    }
}

fn emit_infix(out: &mut Out, st: &mut EmitState, ops: &Vec<(u32, u32)>, e: &Expr)
    requires
        out_wf(*old(out)),
        e matches Expr::Binary { op, .. } && op != BinOp::Div && op != BinOp::Implies,
    ensures
        out_wf(*final(out)),
        final(out).indent == old(out).indent,
        final(out).fixed == old(out).fixed,
        wrote(*old(out), *old(st), *final(out), *final(st),
            binary_inner(*e, old(out).indent, old(st).in_ensures, ops@, counters(*old(st)))),
    decreases *e, 0nat,
{
    let ghost b0 = out.buf@;
    if let Expr::Binary { op, lhs, rhs, .. } = e {
        let prec = ts_prec_of(*op);
        emit_expr(out, st, ops, lhs, prec);
        out.frag(" ");
        out.frag(ts_op(*op));
        out.frag(" ");
        emit_expr(out, st, ops, rhs, prec + 1);
        proof {
            let x = binary_inner(*e, old(out).indent, old(st).in_ensures, ops@, counters(*old(st)));
            assert(out.buf@ =~= b0 + x.0);
        }
    }
}

/// A binary expression, in parentheses when it binds more loosely than its
/// context. `a implies b` becomes `!(a) || b`; integer division truncates
/// toward zero; a right operand of the same strength keeps its parentheses
/// (JavaScript operators associate to the left).
fn emit_binary(out: &mut Out, st: &mut EmitState, ops: &Vec<(u32, u32)>, e: &Expr, parent: u8)
    requires
        out_wf(*old(out)),
        e is Binary,
    ensures
        out_wf(*final(out)),
        final(out).indent == old(out).indent,
        final(out).fixed == old(out).fixed,
        wrote(*old(out), *old(st), *final(out), *final(st),
            binary_ts(*e, parent as nat, old(out).indent, old(st).in_ensures, ops@, counters(*old(st)))),
    decreases *e, 1nat,
{
    let ghost b0 = out.buf@;
    let ghost c0 = counters(*st);
    let ghost ens = st.in_ensures;
    let ghost ind = out.indent;
    if let Expr::Binary { op, .. } = e {
        let prec = ts_prec_of(*op);
        let needs_paren = parent > prec;
        if needs_paren {
            out.frag("(");
        }
        let ghost bp = out.buf@;
        match op {
            BinOp::Implies => emit_implies(out, st, ops, e),
            BinOp::Div => emit_div(out, st, ops, e),
            _ => emit_infix(out, st, ops, e),
        }
        if needs_paren {
            out.frag(")");
        }
        proof {
            let x = binary_inner(*e, ind, ens, ops@, c0);
            assert(out.buf@ =~= b0 + wrap(needs_paren, x.0));
            lemma_binary_ts(*e, parent as nat, ind, ens, ops@, c0);
        }
    }
}

/// `match` becomes an arrow function called at once: the scrutinee is bound
/// to a fresh `kei$m<n>`, each arm is an `if` on the discriminant that binds
/// the pattern's names and returns the arm's value, and a final `throw`
/// guards values the checker could not see (opaque imports).
/// The opening of a lowered `match`: the arrow function and the binding of
/// the scrutinee to `var`, one level deeper.
#[verifier::rlimit(60)]
fn emit_match_head(out: &mut Out, st: &mut EmitState, ops: &Vec<(u32, u32)>, e: &Expr, var: &str)
    requires
        out_wf(*old(out)),
        e is Match,
    ensures
        out_wf(*final(out)),
        final(out).indent == old(out).indent,
        final(out).fixed == old(out).fixed,
        wrote(*old(out), *old(st), *final(out), *final(st), {
            let s = expr_ts(*e->Match_scrutinee, 0, bump(old(out).indent), old(st).in_ensures, ops@, counters(*old(st)));
            ("(() => {"@ + nl() + indent_of(bump(old(out).indent)) + "const "@ + var@ + " = "@ + s.0 + ";"@ + nl(), s.1)
        }),
    decreases *e, 0nat,
{
    let ghost b0 = out.buf@;
    if let Expr::Match { scrutinee, .. } = e {
        let saved = out.indent;
        out.frag("(() => {");
        out.newline();
        out.set_indent(saved.saturating_add(1));
        out.start_line();
        out.map(scrutinee.span());
        out.frag("const ");
        out.frag(var);
        out.frag(" = ");
        emit_expr(out, st, ops, scrutinee, PREC_OR);
        out.frag(";");
        out.newline();
        out.set_indent(saved);
        proof {
            let s = expr_ts(**scrutinee, 0, bump(saved), old(st).in_ensures, ops@, counters(*old(st)));
            assert(out.buf@ =~= b0 + ("(() => {"@ + nl() + indent_of(bump(saved)) + "const "@ + var@ + " = "@ + s.0 + ";"@ + nl()));
        }
    }
}

proof fn lemma_match_ts(e: Expr, ind: usize, ens: bool, ops: Seq<(u32, u32)>, c: (usize, usize))
    requires
        e is Match,
    ensures
        ({
            let var = "kei$m"@ + decimal(c.1 as nat);
            let inner = bump(ind);
            let s = expr_ts(*e->Match_scrutinee, 0, inner, ens, ops, (c.0, bump(c.1)));
            let a = arms_ts(e->Match_arms@, e->Match_arms@.len(), var, inner, ens, ops, s.1);
            match_ts(e, ind, ens, ops, c) == ("(() => {"@ + nl()
                + indent_of(inner) + "const "@ + var + " = "@ + s.0 + ";"@ + nl()
                + a.0
                + indent_of(inner) + "throw new Error(\"non-exhaustive match\");"@ + nl()
                + indent_of(ind) + "})()"@, a.1)
        }),
{
    reveal(match_ts);
    reveal(expr_ts);
    reveal(arms_ts);
}

/// `match` becomes an arrow function called at once: the scrutinee is bound
/// to a fresh `kei$m<n>`, each arm is an `if` on the discriminant that binds
/// the pattern's names and returns the arm's value, and a final `throw`
/// guards values the checker could not see (opaque imports).
#[verifier::rlimit(60)]
fn emit_match(out: &mut Out, st: &mut EmitState, ops: &Vec<(u32, u32)>, e: &Expr)
    requires
        out_wf(*old(out)),
        e is Match,
    ensures
        out_wf(*final(out)),
        final(out).indent == old(out).indent,
        final(out).fixed == old(out).fixed,
        wrote(*old(out), *old(st), *final(out), *final(st),
            match_ts(*e, old(out).indent, old(st).in_ensures, ops@, counters(*old(st)))),
    decreases *e, 1nat,
{
    let ghost b0 = out.buf@;
    let ghost c0 = counters(*st);
    let ghost ens = st.in_ensures;
    if let Expr::Match { arms, .. } = e {
        let id = st.match_counter;
        st.match_counter = st.match_counter.saturating_add(1);
        let mut var = String::new();
        push_str(&mut var, "kei$m");
        push_usize(&mut var, id);
        let saved = out.indent;
        let ghost c1 = counters(*st);
        emit_match_head(out, st, ops, e, var.as_str());
        let ghost b1 = out.buf@;
        let ghost c2 = counters(*st);
        out.set_indent(saved.saturating_add(1));
        let ghost inner = out.indent;
        proof {
            assert(arms_ts(arms@, 0, var@, inner, ens, ops@, c2) == (Seq::<char>::empty(), c2)) by {
                reveal(arms_ts);
            }
            assert(b1 =~= b1 + arms_ts(arms@, 0, var@, inner, ens, ops@, c2).0);
        }
        let mut i: usize = 0;
        while i < arms.len()
            invariant
                out_wf(*out),
                out.indent == inner,
                out.fixed == old(out).fixed,
                *e is Match,
                e->Match_arms == *arms,
                i <= arms@.len(),
                ens == st.in_ensures,
                out.buf@ == b1 + arms_ts(arms@, i as nat, var@, inner, ens, ops@, c2).0,
                counters(*st) == arms_ts(arms@, i as nat, var@, inner, ens, ops@, c2).1,
            decreases arms@.len() - i,
        {
            let ghost ci = counters(*st);
            assert(decreases_to!(arms@ => arms@[i as int]));
            emit_arm(out, st, ops, &arms[i], var.as_str());
            proof {
                let x = arm_ts(arms@[i as int], var@, inner, ens, ops@, ci);
                let p = arms_ts(arms@, i as nat, var@, inner, ens, ops@, c2);
                assert(arms_ts(arms@, (i + 1) as nat, var@, inner, ens, ops@, c2) == (p.0 + x.0, x.1)) by {
                    reveal(arms_ts);
                    reveal(arm_ts);
                }
                assert(out.buf@ =~= b1 + (p.0 + x.0));
            }
            i = i + 1;
        }
        let ghost ba = out.buf@;
        out.line("throw new Error(\"non-exhaustive match\");");
        out.set_indent(saved);
        out.start_line();
        out.frag("})()");
        proof {
            lemma_match_ts(*e, saved, ens, ops@, c0);
            assert(var@ == "kei$m"@ + decimal(c0.1 as nat));
            assert(out.buf@ =~= b0 + match_ts(*e, saved, ens, ops@, c0).0);
        }
    }
}

/// One arm of a lowered `match`: an `if` on the constructor that binds the
/// pattern's names and returns the arm's value.
#[verifier::rlimit(100)]
#[verifier::spinoff_prover]
fn emit_arm(out: &mut Out, st: &mut EmitState, ops: &Vec<(u32, u32)>, arm: &ast::MatchArm, var: &str)
    requires
        out_wf(*old(out)),
    ensures
        out_wf(*final(out)),
        final(out).indent == old(out).indent,
        final(out).fixed == old(out).fixed,
        wrote(*old(out), *old(st), *final(out), *final(st),
            arm_ts(*arm, var@, old(out).indent, old(st).in_ensures, ops@, counters(*old(st)))),
    decreases *arm, 0nat,
{
    reveal(arm_ts);
    reveal(expr_ts);
    let ghost b0 = out.buf@;
    let ghost c0 = counters(*st);
    let ghost ens = st.in_ensures;
    let saved = out.indent;
    let cond = arm_condition(var, &arm.pattern);
    out.start_line();
    out.map(arm.pattern.span);
    out.frag("if (");
    out.frag(cond.as_str());
    out.frag(") {");
    out.newline();
    out.set_indent(saved.saturating_add(1));
    let ghost b1 = out.buf@;
    emit_pattern_bindings(out, var, &arm.pattern);
    out.start_line();
    out.map(arm.body.span());
    out.frag("return ");
    let ghost bb = out.buf@;
    emit_expr(out, st, ops, &arm.body, PREC_OR);
    out.frag(";");
    out.newline();
    out.set_indent(saved);
    out.line("}");
    proof {
        let b = expr_ts(arm.body, 0, bump(saved), ens, ops@, c0);
        assert(b1 =~= b0 + (indent_of(saved) + "if ("@ + arm_cond(var@, arm.pattern) + ") {"@ + nl()));
        assert(bb =~= b1 + binding_lines(var@, arm.pattern, bump(saved)) + indent_of(bump(saved)) + "return "@);
        assert(out.buf@ =~= bb + b.0 + ";"@ + nl() + indent_of(saved) + "}"@ + nl());
        assert(out.buf@ =~= b0 + arm_ts(*arm, var@, saved, ens, ops@, c0).0);
    }
}

/// The test that selects a pattern's constructor: the shared `ok`
/// discriminant of `Option` / `Result`, else the enum's `kind`.
fn arm_condition(var: &str, pat: &Pattern) -> (r: String)
    ensures
        r@ == arm_cond(var@, *pat),
{
    reveal(arm_cond);
    let n = pat.path.len();
    let mut s = String::new();
    let single: &str = if n == 1 { pat.path[0].name.as_str() } else { "" };
    if n == 1 && (crate::text::str_eq(single, "Some") || crate::text::str_eq(single, "Ok")) {
        push_str(&mut s, var);
        push_str(&mut s, ".ok");
    } else if n == 1 && (crate::text::str_eq(single, "None") || crate::text::str_eq(single, "Err")) {
        push_str(&mut s, "!");
        push_str(&mut s, var);
        push_str(&mut s, ".ok");
    } else {
        push_str(&mut s, var);
        push_str(&mut s, ".kind === ");
        let last: &str = if n > 0 { pat.path[n - 1].name.as_str() } else { "" };
        let q = json_string(last);
        push_str(&mut s, q.as_str());
    }
    s
}

/// `const` bindings of a pattern's names, one line each.
fn emit_pattern_bindings(out: &mut Out, var: &str, pat: &Pattern)
    requires
        out_wf(*old(out)),
    ensures
        out_wf(*final(out)),
        final(out).indent == old(out).indent,
        final(out).fixed == old(out).fixed,
        final(out).buf@ == old(out).buf@ + binding_lines(var@, *pat, old(out).indent),
{
    reveal(binding_lines);
    reveal(tuple_binding_lines);
    reveal(field_binding_lines);
    let ghost b0 = out.buf@;
    let ghost ind = out.indent;
    let n = pat.path.len();
    let single: &str = if n == 1 { pat.path[0].name.as_str() } else { "" };
    let some_ok = n == 1 && (crate::text::str_eq(single, "Some") || crate::text::str_eq(single, "Ok"));
    let err = n == 1 && crate::text::str_eq(single, "Err");
    assert(some_ok == pat_is_ok(*pat));
    assert(err == (pat.path@.len() == 1 && pat.path@[0].name@ == "Err"@));
    match &pat.payload {
        PatternPayload::Tuple { bindings } => {
            if some_ok || err {
                if bindings.len() > 0 {
                    let mut t = String::new();
                    push_str(&mut t, "const ");
                    push_str(&mut t, bindings[0].name.as_str());
                    push_str(&mut t, " = ");
                    push_str(&mut t, var);
                    push_str(&mut t, if err { ".error;" } else { ".value;" });
                    out.line(t.as_str());
                    assert(out.buf@ =~= b0 + binding_lines(var@, *pat, ind));
                } else {
                    assert(out.buf@ =~= b0 + binding_lines(var@, *pat, ind));
                }
            } else {
                let mut i: usize = 0;
                while i < bindings.len()
                    invariant
                        out_wf(*out),
                        out.indent == old(out).indent,
                        out.fixed == old(out).fixed,
                        ind == out.indent,
                        i <= bindings@.len(),
                        out.buf@ == b0 + tuple_binding_lines(var@, bindings@, i as nat, ind),
                    decreases bindings@.len() - i,
                {
                    let mut t = String::new();
                    push_str(&mut t, "const ");
                    push_str(&mut t, bindings[i].name.as_str());
                    push_str(&mut t, " = ");
                    push_str(&mut t, var);
                    push_str(&mut t, ".values[");
                    push_usize(&mut t, i);
                    push_str(&mut t, "];");
                    out.line(t.as_str());
                    assert(out.buf@ =~= b0 + tuple_binding_lines(var@, bindings@, (i + 1) as nat, ind)) by {
                        reveal(tuple_binding_lines);
                    }
                    i = i + 1;
                }
            }
        },
        PatternPayload::Record { fields } => {
            let mut i: usize = 0;
            while i < fields.len()
                invariant
                    out_wf(*out),
                    out.indent == old(out).indent,
                    out.fixed == old(out).fixed,
                    ind == out.indent,
                    i <= fields@.len(),
                    out.buf@ == b0 + field_binding_lines(var@, fields@, i as nat, ind),
                decreases fields@.len() - i,
            {
                let mut t = String::new();
                push_str(&mut t, "const ");
                push_str(&mut t, fields[i].name.as_str());
                push_str(&mut t, " = ");
                push_str(&mut t, var);
                push_str(&mut t, ".fields.");
                push_str(&mut t, fields[i].name.as_str());
                push_str(&mut t, ";");
                out.line(t.as_str());
                assert(out.buf@ =~= b0 + field_binding_lines(var@, fields@, (i + 1) as nat, ind)) by {
                    reveal(field_binding_lines);
                }
                i = i + 1;
            }
        },
        PatternPayload::Unit => {
            assert(out.buf@ =~= b0 + binding_lines(var@, *pat, ind));
        },
    }
}

// ---------------------------------------------------------------------------
// Runtime imports (a walk over the syntax)
// ---------------------------------------------------------------------------

/// The `@kei/runtime` names a module uses.
pub struct RuntimeUses {
    pub err: bool,
    pub violation: bool,
    pub none: bool,
    pub ok: bool,
    pub option: bool,
    pub result: bool,
    pub some: bool,
    pub list_get: bool,
}

/// The uses with these flags.
pub open spec fn uses_of(err: bool, violation: bool, none: bool, ok: bool, option: bool, result: bool, some: bool, list_get: bool) -> RuntimeUses {
    RuntimeUses { err, violation, none, ok, option, result, some, list_get }
}

/// No runtime name.
pub open spec fn no_uses() -> RuntimeUses {
    RuntimeUses { err: false, violation: false, none: false, ok: false, option: false, result: false, some: false, list_get: false }
}

/// The names either of `a` and `b` uses.
pub open spec fn join_uses(a: RuntimeUses, b: RuntimeUses) -> RuntimeUses {
    RuntimeUses {
        err: a.err || b.err,
        violation: a.violation || b.violation,
        none: a.none || b.none,
        ok: a.ok || b.ok,
        option: a.option || b.option,
        result: a.result || b.result,
        some: a.some || b.some,
        list_get: a.list_get || b.list_get,
    }
}

/// The runtime type a type's own head names (`Result` or `Option`).
pub open spec fn ty_own_uses(t: Type) -> RuntimeUses {
    if t.path@.len() == 1 && t.path@[0].name@ == "Result"@ {
        uses_of(false, false, false, false, false, true, false, false)
    } else if t.path@.len() == 1 && t.path@[0].name@ == "Option"@ {
        uses_of(false, false, false, false, true, false, false, false)
    } else {
        no_uses()
    }
}

/// The runtime types a type mentions (`Result`, `Option`, at any depth).
#[verifier::opaque]
pub open spec fn ty_uses(t: Type) -> RuntimeUses
    decreases t, 1nat,
{
    join_uses(ty_own_uses(t), tys_uses(t.args@, t.args@.len()))
}

#[verifier::opaque]
pub open spec fn tys_uses(ts: Seq<Type>, n: nat) -> RuntimeUses
    decreases ts, n,
{
    if n == 0 || n > ts.len() { no_uses() } else { join_uses(tys_uses(ts, (n - 1) as nat), ty_uses(ts[n - 1])) }
}

/// The runtime names an expression calls: the `Ok` / `Err` / `Some` /
/// `None` constructors, and `keiListGet` for a list's `get`.
#[verifier::opaque]
pub open spec fn expr_uses(e: Expr, ops: Seq<(u32, u32)>) -> RuntimeUses
    decreases e, 1nat,
{
    match e {
        Expr::Field { base, .. } => expr_uses(*base, ops),
        Expr::Call { callee, args, .. } => {
            let head = match *callee {
                Expr::Name { name, .. } => if name@ == "Ok"@ {
                    uses_of(false, false, false, true, false, false, false, false)
                } else if name@ == "Err"@ {
                    uses_of(true, false, false, false, false, false, false, false)
                } else if name@ == "Some"@ {
                    uses_of(false, false, false, false, false, false, true, false)
                } else if name@ == "None"@ {
                    uses_of(false, false, true, false, false, false, false, false)
                } else {
                    no_uses()
                },
                Expr::Field { name, .. } => join_uses(
                    uses_of(false, false, false, false, false, false, false, name.name@ == "get"@ && ops.contains((name.span.start.line, name.span.start.col))),
                    expr_uses(*callee, ops)),
                _ => expr_uses(*callee, ops),
            };
            join_uses(head, exprs_uses(args@, args@.len(), ops))
        },
        Expr::Unary { expr, .. } => expr_uses(*expr, ops),
        Expr::Binary { lhs, rhs, .. } => join_uses(expr_uses(*lhs, ops), expr_uses(*rhs, ops)),
        Expr::RecordLit { fields, .. } => rlfields_uses(fields@, fields@.len(), ops),
        Expr::Match { scrutinee, arms, .. } => join_uses(expr_uses(*scrutinee, ops), arms_uses(arms@, arms@.len(), ops)),
        Expr::ListLit { elements, .. } => exprs_uses(elements@, elements@.len(), ops),
        _ => no_uses(),
    }
}

#[verifier::opaque]
pub open spec fn exprs_uses(es: Seq<Expr>, n: nat, ops: Seq<(u32, u32)>) -> RuntimeUses
    decreases es, n,
{
    if n == 0 || n > es.len() { no_uses() } else { join_uses(exprs_uses(es, (n - 1) as nat, ops), expr_uses(es[n - 1], ops)) }
}

#[verifier::opaque]
pub open spec fn rlfield_uses(f: ast::RecordLitField, ops: Seq<(u32, u32)>) -> RuntimeUses
    decreases f, 0nat,
{
    match f.value {
        Some(v) => expr_uses(v, ops),
        None => no_uses(),
    }
}

#[verifier::opaque]
pub open spec fn rlfields_uses(fs: Seq<ast::RecordLitField>, n: nat, ops: Seq<(u32, u32)>) -> RuntimeUses
    decreases fs, n,
{
    if n == 0 || n > fs.len() { no_uses() } else { join_uses(rlfields_uses(fs, (n - 1) as nat, ops), rlfield_uses(fs[n - 1], ops)) }
}

#[verifier::opaque]
pub open spec fn arm_uses(a: ast::MatchArm, ops: Seq<(u32, u32)>) -> RuntimeUses
    decreases a, 0nat,
{
    expr_uses(a.body, ops)
}

#[verifier::opaque]
pub open spec fn arms_uses(arms: Seq<ast::MatchArm>, n: nat, ops: Seq<(u32, u32)>) -> RuntimeUses
    decreases arms, n,
{
    if n == 0 || n > arms.len() { no_uses() } else { join_uses(arms_uses(arms, (n - 1) as nat, ops), arm_uses(arms[n - 1], ops)) }
}

/// The runtime names a statement uses (`let ... else fail` returns `Err`).
#[verifier::opaque]
pub open spec fn stmt_uses(s: ast::Stmt, ops: Seq<(u32, u32)>) -> RuntimeUses
    decreases s, 1nat,
{
    match s {
        ast::Stmt::Let(l) => {
            let t = match l.ty { Some(t) => ty_uses(t), None => no_uses() };
            let f = match l.else_fail {
                Some(f) => join_uses(uses_of(true, false, false, false, false, false, false, false), expr_uses(f, ops)),
                None => no_uses(),
            };
            join_uses(join_uses(t, expr_uses(l.value, ops)), f)
        },
        ast::Stmt::If(i) => if_uses(i, ops),
        ast::Stmt::Return(r) => match r.value {
            Some(v) => expr_uses(v, ops),
            None => no_uses(),
        },
        ast::Stmt::Expr(e) => expr_uses(e.expr, ops),
    }
}

#[verifier::opaque]
pub open spec fn if_uses(i: ast::IfStmt, ops: Seq<(u32, u32)>) -> RuntimeUses
    decreases i, 0nat,
{
    let head = join_uses(expr_uses(i.cond, ops), block_uses(i.then_block, ops));
    match i.else_branch {
        Some(ast::ElseBranch::If(nested)) => join_uses(head, if_uses(*nested, ops)),
        Some(ast::ElseBranch::Block(b)) => join_uses(head, block_uses(b, ops)),
        None => head,
    }
}

#[verifier::opaque]
pub open spec fn block_uses(b: ast::Block, ops: Seq<(u32, u32)>) -> RuntimeUses
    decreases b, 1nat,
{
    stmts_uses(b.stmts@, b.stmts@.len(), ops)
}

#[verifier::opaque]
pub open spec fn stmts_uses(ss: Seq<ast::Stmt>, n: nat, ops: Seq<(u32, u32)>) -> RuntimeUses
    decreases ss, n,
{
    if n == 0 || n > ss.len() { no_uses() } else { join_uses(stmts_uses(ss, (n - 1) as nat, ops), stmt_uses(ss[n - 1], ops)) }
}

#[verifier::opaque]
pub open spec fn params_uses(ps: Seq<ast::Param>, n: nat) -> RuntimeUses
    decreases n,
{
    if n == 0 || n > ps.len() { no_uses() } else { join_uses(params_uses(ps, (n - 1) as nat), ty_uses(ps[n - 1].ty)) }
}

#[verifier::opaque]
pub open spec fn field_defs_uses(fs: Seq<ast::FieldDef>, n: nat) -> RuntimeUses
    decreases n,
{
    if n == 0 || n > fs.len() { no_uses() } else { join_uses(field_defs_uses(fs, (n - 1) as nat), ty_uses(fs[n - 1].ty)) }
}

#[verifier::opaque]
pub open spec fn variant_uses(v: ast::Variant) -> RuntimeUses {
    match v.payload {
        ast::VariantPayload::Unit => no_uses(),
        ast::VariantPayload::Tuple { types } => tys_uses(types@, types@.len()),
        ast::VariantPayload::Record { fields } => field_defs_uses(fields@, fields@.len()),
    }
}

#[verifier::opaque]
pub open spec fn variants_uses(vs: Seq<ast::Variant>, n: nat) -> RuntimeUses
    decreases n,
{
    if n == 0 || n > vs.len() { no_uses() } else { join_uses(variants_uses(vs, (n - 1) as nat), variant_uses(vs[n - 1])) }
}

/// The runtime names an item uses; a function with contracts throws
/// `KeiContractViolation`.
#[verifier::opaque]
pub open spec fn item_uses(item: Item, ops: Seq<(u32, u32)>) -> RuntimeUses {
    match item {
        Item::TypeAlias(a) => ty_uses(a.ty),
        Item::Record(r) => field_defs_uses(r.fields@, r.fields@.len()),
        Item::Enum(e) => variants_uses(e.variants@, e.variants@.len()),
        Item::Func(f) => {
            let sig = join_uses(params_uses(f.params@, f.params@.len()), match f.ret { Some(t) => ty_uses(t), None => no_uses() });
            let v = uses_of(false, f.requires@.len() > 0 || f.ensures@.len() > 0, false, false, false, false, false, false);
            join_uses(join_uses(join_uses(join_uses(sig, v), exprs_uses(f.requires@, f.requires@.len(), ops)),
                exprs_uses(f.ensures@, f.ensures@.len(), ops)), block_uses(f.body, ops))
        },
        Item::Extern(_) => no_uses(),
    }
}

#[verifier::opaque]
pub open spec fn items_uses(items: Seq<Item>, n: nat, ops: Seq<(u32, u32)>) -> RuntimeUses
    decreases n,
{
    if n == 0 || n > items.len() { no_uses() } else { join_uses(items_uses(items, (n - 1) as nat, ops), item_uses(items[n - 1], ops)) }
}

/// Whether any runtime name is used.
pub open spec fn any_use(u: RuntimeUses) -> bool {
    u.err || u.violation || u.none || u.ok || u.option || u.result || u.some || u.list_get
}

/// `ns` with `name` pushed when `used`.
pub open spec fn push_if(ns: Seq<Seq<char>>, used: bool, name: Seq<char>) -> Seq<Seq<char>> {
    if used { ns.push(name) } else { ns }
}

/// The names used, in byte order.
pub open spec fn use_names(u: RuntimeUses) -> Seq<Seq<char>> {
    push_if(push_if(push_if(push_if(push_if(push_if(push_if(push_if(Seq::empty(),
        u.err, "Err"@), u.violation, "KeiContractViolation"@), u.none, "None"@), u.ok, "Ok"@),
        u.option, "Option"@), u.result, "Result"@), u.some, "Some"@), u.list_get, "keiListGet"@)
}

/// Names joined with `, `.
pub open spec fn comma_joined(ns: Seq<Seq<char>>) -> Seq<char>
    decreases ns.len(),
{
    if ns.len() == 0 {
        Seq::empty()
    } else if ns.len() == 1 {
        ns[0]
    } else {
        comma_joined(ns.drop_last()) + ", "@ + ns.last()
    }
}

/// The import of the runtime names a module uses: a blank line and one
/// import line, or nothing when it uses none.
pub open spec fn runtime_import(u: RuntimeUses) -> Seq<char> {
    if any_use(u) {
        nl() + "import { "@ + comma_joined(use_names(u)) + " } from \"@kei/runtime\";"@ + nl()
    } else {
        Seq::empty()
    }
}

proof fn lemma_ty_uses(t: Type)
    ensures
        ty_uses(t) == join_uses(ty_own_uses(t), tys_uses(t.args@, t.args@.len())),
{
    reveal(ty_uses);
    reveal(tys_uses);
}

proof fn lemma_tys_uses(ts: Seq<Type>, i: nat)
    ensures
        tys_uses(ts, 0) == no_uses(),
        i < ts.len() ==> tys_uses(ts, i + 1) == join_uses(tys_uses(ts, i), ty_uses(ts[i as int])),
{
    reveal(ty_uses);
    reveal(tys_uses);
}

proof fn lemma_exprs_uses(es: Seq<Expr>, i: nat, ops: Seq<(u32, u32)>)
    ensures
        exprs_uses(es, 0, ops) == no_uses(),
        i < es.len() ==> exprs_uses(es, i + 1, ops) == join_uses(exprs_uses(es, i, ops), expr_uses(es[i as int], ops)),
{
    reveal(expr_uses);
    reveal(exprs_uses);
    reveal(rlfield_uses);
    reveal(rlfields_uses);
    reveal(arm_uses);
    reveal(arms_uses);
}

proof fn lemma_rlfields_uses(fs: Seq<ast::RecordLitField>, i: nat, ops: Seq<(u32, u32)>)
    ensures
        rlfields_uses(fs, 0, ops) == no_uses(),
        i < fs.len() ==> rlfields_uses(fs, i + 1, ops) == join_uses(rlfields_uses(fs, i, ops),
            match fs[i as int].value { Some(v) => expr_uses(v, ops), None => no_uses() }),
{
    if i < fs.len() {
        assert(rlfield_uses(fs[i as int], ops) == match fs[i as int].value { Some(v) => expr_uses(v, ops), None => no_uses() }) by {
            reveal(expr_uses);
            reveal(exprs_uses);
            reveal(rlfield_uses);
            reveal(rlfields_uses);
            reveal(arm_uses);
            reveal(arms_uses);
        }
    }
    reveal(expr_uses);
    reveal(exprs_uses);
    reveal(rlfield_uses);
    reveal(rlfields_uses);
    reveal(arm_uses);
    reveal(arms_uses);
}

proof fn lemma_arms_uses(arms: Seq<ast::MatchArm>, i: nat, ops: Seq<(u32, u32)>)
    ensures
        arms_uses(arms, 0, ops) == no_uses(),
        i < arms.len() ==> arms_uses(arms, i + 1, ops) == join_uses(arms_uses(arms, i, ops), expr_uses(arms[i as int].body, ops)),
{
    if i < arms.len() {
        assert(arm_uses(arms[i as int], ops) == expr_uses(arms[i as int].body, ops)) by {
            reveal(expr_uses);
            reveal(exprs_uses);
            reveal(rlfield_uses);
            reveal(rlfields_uses);
            reveal(arm_uses);
            reveal(arms_uses);
        }
    }
    reveal(expr_uses);
    reveal(exprs_uses);
    reveal(rlfield_uses);
    reveal(rlfields_uses);
    reveal(arm_uses);
    reveal(arms_uses);
}

proof fn lemma_stmts_uses(ss: Seq<ast::Stmt>, i: nat, ops: Seq<(u32, u32)>)
    ensures
        stmts_uses(ss, 0, ops) == no_uses(),
        i < ss.len() ==> stmts_uses(ss, i + 1, ops) == join_uses(stmts_uses(ss, i, ops), stmt_uses(ss[i as int], ops)),
{
    reveal(stmt_uses);
    reveal(if_uses);
    reveal(block_uses);
    reveal(stmts_uses);
}

proof fn lemma_if_uses(i: ast::IfStmt, ops: Seq<(u32, u32)>)
    ensures
        if_uses(i, ops) == ({
            let head = join_uses(expr_uses(i.cond, ops), block_uses(i.then_block, ops));
            match i.else_branch {
                Some(ast::ElseBranch::If(nested)) => join_uses(head, if_uses(*nested, ops)),
                Some(ast::ElseBranch::Block(b)) => join_uses(head, block_uses(b, ops)),
                None => head,
            }
        }),
{
    reveal(stmt_uses);
    reveal(if_uses);
    reveal(block_uses);
    reveal(stmts_uses);
}

proof fn lemma_block_uses(b: ast::Block, ops: Seq<(u32, u32)>)
    ensures
        block_uses(b, ops) == stmts_uses(b.stmts@, b.stmts@.len(), ops),
{
    reveal(stmt_uses);
    reveal(if_uses);
    reveal(block_uses);
    reveal(stmts_uses);
}

proof fn lemma_field_defs_uses(fs: Seq<ast::FieldDef>, i: nat)
    ensures
        field_defs_uses(fs, 0) == no_uses(),
        i < fs.len() ==> field_defs_uses(fs, i + 1) == join_uses(field_defs_uses(fs, i), ty_uses(fs[i as int].ty)),
{
    reveal(field_defs_uses);
}

proof fn lemma_params_uses(ps: Seq<ast::Param>, i: nat)
    ensures
        params_uses(ps, 0) == no_uses(),
        i < ps.len() ==> params_uses(ps, i + 1) == join_uses(params_uses(ps, i), ty_uses(ps[i as int].ty)),
{
    reveal(params_uses);
}

proof fn lemma_variants_uses(vs: Seq<ast::Variant>, i: nat)
    ensures
        variants_uses(vs, 0) == no_uses(),
        i < vs.len() ==> variants_uses(vs, i + 1) == join_uses(variants_uses(vs, i), variant_uses(vs[i as int])),
{
    reveal(variants_uses);
}

proof fn lemma_items_uses(items: Seq<Item>, i: nat, ops: Seq<(u32, u32)>)
    ensures
        items_uses(items, 0, ops) == no_uses(),
        i < items.len() ==> items_uses(items, i + 1, ops) == join_uses(items_uses(items, i, ops), item_uses(items[i as int], ops)),
{
    reveal(items_uses);
}

impl RuntimeUses {
    fn any(&self) -> (r: bool)
        ensures
            r == any_use(*self),
    {
        self.err || self.violation || self.none || self.ok || self.option || self.result || self.some || self.list_get
    }

    /// The names, in byte order, joined with `, `.
    fn names(&self) -> (r: String)
        ensures
            r@ == comma_joined(use_names(*self)),
    {
        let mut s = String::new();
        let mut first = true;
        let ghost n0: Seq<Seq<char>> = Seq::empty();
        push_name(&mut s, &mut first, self.err, "Err", Ghost(n0));
        let ghost n1 = push_if(n0, self.err, "Err"@);
        push_name(&mut s, &mut first, self.violation, "KeiContractViolation", Ghost(n1));
        let ghost n2 = push_if(n1, self.violation, "KeiContractViolation"@);
        push_name(&mut s, &mut first, self.none, "None", Ghost(n2));
        let ghost n3 = push_if(n2, self.none, "None"@);
        push_name(&mut s, &mut first, self.ok, "Ok", Ghost(n3));
        let ghost n4 = push_if(n3, self.ok, "Ok"@);
        push_name(&mut s, &mut first, self.option, "Option", Ghost(n4));
        let ghost n5 = push_if(n4, self.option, "Option"@);
        push_name(&mut s, &mut first, self.result, "Result", Ghost(n5));
        let ghost n6 = push_if(n5, self.result, "Result"@);
        push_name(&mut s, &mut first, self.some, "Some", Ghost(n6));
        let ghost n7 = push_if(n6, self.some, "Some"@);
        push_name(&mut s, &mut first, self.list_get, "keiListGet", Ghost(n7));
        s
    }

    fn ty(&mut self, t: &Type)
        ensures
            *final(self) == join_uses(*old(self), ty_uses(*t)),
        decreases *t, 1nat,
    {
        if t.path.len() == 1 {
            let n = t.path[0].name.as_str();
            if crate::text::str_eq(n, "Result") {
                self.result = true;
            } else if crate::text::str_eq(n, "Option") {
                self.option = true;
            }
        }
        assert(decreases_to!(*t => t.args));
        self.tys(&t.args);
        proof { lemma_ty_uses(*t); }
    }

    fn tys(&mut self, ts: &Vec<Type>)
        ensures
            *final(self) == join_uses(*old(self), tys_uses(ts@, ts@.len())),
        decreases ts@, 0nat,
    {
        proof { lemma_tys_uses(ts@, 0); }
        let mut i: usize = 0;
        while i < ts.len()
            invariant
                i <= ts@.len(),
                *self == join_uses(*old(self), tys_uses(ts@, i as nat)),
            decreases ts@.len() - i,
        {
            proof { lemma_tys_uses(ts@, i as nat); }
            assert(decreases_to!(ts@ => ts@[i as int]));
            self.ty(&ts[i]);
            i = i + 1;
        }
    }

    fn block(&mut self, ops: &Vec<(u32, u32)>, b: &ast::Block)
        ensures
            *final(self) == join_uses(*old(self), block_uses(*b, ops@)),
        decreases *b,
    {
        proof {
            lemma_block_uses(*b, ops@);
            lemma_stmts_uses(b.stmts@, 0, ops@);
        }
        let mut i: usize = 0;
        while i < b.stmts.len()
            invariant
                i <= b.stmts@.len(),
                *self == join_uses(*old(self), stmts_uses(b.stmts@, i as nat, ops@)),
            decreases b.stmts@.len() - i,
        {
            proof { lemma_stmts_uses(b.stmts@, i as nat, ops@); }
            assert(decreases_to!(b.stmts@ => b.stmts@[i as int]));
            self.stmt(ops, &b.stmts[i]);
            i = i + 1;
        }
    }

    fn stmt(&mut self, ops: &Vec<(u32, u32)>, s: &ast::Stmt)
        ensures
            *final(self) == join_uses(*old(self), stmt_uses(*s, ops@)),
        decreases *s,
    {
        proof {
            reveal(stmt_uses);
            reveal(if_uses);
            reveal(block_uses);
            reveal(stmts_uses);
        }
        match s {
            ast::Stmt::Let(l) => {
                if let Some(t) = &l.ty {
                    self.ty(t);
                }
                self.expr(ops, &l.value);
                if let Some(f) = &l.else_fail {
                    self.err = true;
                    self.expr(ops, f);
                }
            },
            ast::Stmt::If(i) => self.if_stmt(ops, i),
            ast::Stmt::Return(r) => {
                if let Some(v) = &r.value {
                    self.expr(ops, v);
                }
            },
            ast::Stmt::Expr(e) => self.expr(ops, &e.expr),
        }
    }

    #[verifier::spinoff_prover]
    #[verifier::rlimit(60)]
    fn if_stmt(&mut self, ops: &Vec<(u32, u32)>, i: &ast::IfStmt)
        ensures
            *final(self) == join_uses(*old(self), if_uses(*i, ops@)),
        decreases *i,
    {
        proof { lemma_if_uses(*i, ops@); }
        let ghost s0 = *self;
        self.expr(ops, &i.cond);
        self.block(ops, &i.then_block);
        let ghost head = join_uses(expr_uses(i.cond, ops@), block_uses(i.then_block, ops@));
        assert(*self == join_uses(s0, head));
        match &i.else_branch {
            Some(ast::ElseBranch::If(nested)) => {
                self.if_stmt(ops, nested);
            },
            Some(ast::ElseBranch::Block(b)) => {
                self.block(ops, b);
            },
            None => {},
        }
    }

    fn exprs(&mut self, ops: &Vec<(u32, u32)>, es: &Vec<Expr>)
        ensures
            *final(self) == join_uses(*old(self), exprs_uses(es@, es@.len(), ops@)),
        decreases es@, 0nat,
    {
        proof { lemma_exprs_uses(es@, 0, ops@); }
        let mut i: usize = 0;
        while i < es.len()
            invariant
                i <= es@.len(),
                *self == join_uses(*old(self), exprs_uses(es@, i as nat, ops@)),
            decreases es@.len() - i,
        {
            proof { lemma_exprs_uses(es@, i as nat, ops@); }
            assert(decreases_to!(es@ => es@[i as int]));
            self.expr(ops, &es[i]);
            i = i + 1;
        }
    }

    fn rlfields(&mut self, ops: &Vec<(u32, u32)>, fields: &Vec<ast::RecordLitField>)
        ensures
            *final(self) == join_uses(*old(self), rlfields_uses(fields@, fields@.len(), ops@)),
        decreases fields@, 0nat,
    {
        proof { lemma_rlfields_uses(fields@, 0, ops@); }
        let mut i: usize = 0;
        while i < fields.len()
            invariant
                i <= fields@.len(),
                *self == join_uses(*old(self), rlfields_uses(fields@, i as nat, ops@)),
            decreases fields@.len() - i,
        {
            proof { lemma_rlfields_uses(fields@, i as nat, ops@); }
            if let Some(v) = &fields[i].value {
                assert(decreases_to!(fields@ => fields@[i as int]));
                assert(decreases_to!(fields@[i as int] => fields@[i as int].value));
                self.expr(ops, v);
            }
            i = i + 1;
        }
    }

    fn arms(&mut self, ops: &Vec<(u32, u32)>, arms: &Vec<ast::MatchArm>)
        ensures
            *final(self) == join_uses(*old(self), arms_uses(arms@, arms@.len(), ops@)),
        decreases arms@, 0nat,
    {
        proof { lemma_arms_uses(arms@, 0, ops@); }
        let mut i: usize = 0;
        while i < arms.len()
            invariant
                i <= arms@.len(),
                *self == join_uses(*old(self), arms_uses(arms@, i as nat, ops@)),
            decreases arms@.len() - i,
        {
            proof { lemma_arms_uses(arms@, i as nat, ops@); }
            assert(decreases_to!(arms@ => arms@[i as int]));
            assert(decreases_to!(arms@[i as int] => arms@[i as int].body));
            self.expr(ops, &arms[i].body);
            i = i + 1;
        }
    }

    fn expr(&mut self, ops: &Vec<(u32, u32)>, e: &Expr)
        ensures
            *final(self) == join_uses(*old(self), expr_uses(*e, ops@)),
        decreases *e, 1nat,
    {
        proof {
            reveal(expr_uses);
            reveal(exprs_uses);
            reveal(rlfield_uses);
            reveal(rlfields_uses);
            reveal(arm_uses);
            reveal(arms_uses);
        }
        match e {
            Expr::Field { base, .. } => self.expr(ops, base),
            Expr::Call { callee, args, .. } => {
                match &**callee {
                    Expr::Name { name, .. } => {
                        let n = name.as_str();
                        if crate::text::str_eq(n, "Ok") {
                            self.ok = true;
                        } else if crate::text::str_eq(n, "Err") {
                            self.err = true;
                        } else if crate::text::str_eq(n, "Some") {
                            self.some = true;
                        } else if crate::text::str_eq(n, "None") {
                            self.none = true;
                        }
                    },
                    Expr::Field { name, .. } => {
                        if crate::text::str_eq(name.name.as_str(), "get") && is_list_op(ops, name.span.start) {
                            self.list_get = true;
                        }
                        self.expr(ops, callee);
                    },
                    _ => self.expr(ops, callee),
                }
                self.exprs(ops, args);
            },
            Expr::Unary { expr, .. } => self.expr(ops, expr),
            Expr::Binary { lhs, rhs, .. } => {
                self.expr(ops, lhs);
                self.expr(ops, rhs);
            },
            Expr::RecordLit { fields, .. } => self.rlfields(ops, fields),
            Expr::Match { scrutinee, arms, .. } => {
                self.expr(ops, scrutinee);
                self.arms(ops, arms);
            },
            Expr::ListLit { elements, .. } => self.exprs(ops, elements),
            _ => {},
        }
    }

    fn field_defs(&mut self, fs: &Vec<ast::FieldDef>)
        ensures
            *final(self) == join_uses(*old(self), field_defs_uses(fs@, fs@.len())),
    {
        proof { lemma_field_defs_uses(fs@, 0); }
        let mut i: usize = 0;
        while i < fs.len()
            invariant
                i <= fs@.len(),
                *self == join_uses(*old(self), field_defs_uses(fs@, i as nat)),
            decreases fs@.len() - i,
        {
            proof { lemma_field_defs_uses(fs@, i as nat); }
            self.ty(&fs[i].ty);
            i = i + 1;
        }
    }

    fn params(&mut self, ps: &Vec<ast::Param>)
        ensures
            *final(self) == join_uses(*old(self), params_uses(ps@, ps@.len())),
    {
        proof { lemma_params_uses(ps@, 0); }
        let mut i: usize = 0;
        while i < ps.len()
            invariant
                i <= ps@.len(),
                *self == join_uses(*old(self), params_uses(ps@, i as nat)),
            decreases ps@.len() - i,
        {
            proof { lemma_params_uses(ps@, i as nat); }
            self.ty(&ps[i].ty);
            i = i + 1;
        }
    }

    fn variants(&mut self, vs: &Vec<ast::Variant>)
        ensures
            *final(self) == join_uses(*old(self), variants_uses(vs@, vs@.len())),
    {
        proof { lemma_variants_uses(vs@, 0); }
        let mut i: usize = 0;
        while i < vs.len()
            invariant
                i <= vs@.len(),
                *self == join_uses(*old(self), variants_uses(vs@, i as nat)),
            decreases vs@.len() - i,
        {
            proof {
                lemma_variants_uses(vs@, i as nat);
                reveal(variant_uses);
            }
            match &vs[i].payload {
                ast::VariantPayload::Unit => {},
                ast::VariantPayload::Tuple { types } => self.tys(types),
                ast::VariantPayload::Record { fields } => self.field_defs(fields),
            }
            i = i + 1;
        }
    }

    fn item(&mut self, ops: &Vec<(u32, u32)>, item: &Item)
        ensures
            *final(self) == join_uses(*old(self), item_uses(*item, ops@)),
    {
        proof { reveal(item_uses); }
        match item {
            Item::TypeAlias(a) => self.ty(&a.ty),
            Item::Record(r) => self.field_defs(&r.fields),
            Item::Enum(en) => self.variants(&en.variants),
            Item::Func(f) => {
                self.params(&f.params);
                if let Some(r) = &f.ret {
                    self.ty(r);
                }
                if f.requires.len() > 0 || f.ensures.len() > 0 {
                    self.violation = true;
                }
                self.exprs(ops, &f.requires);
                self.exprs(ops, &f.ensures);
                self.block(ops, &f.body);
            },
            Item::Extern(_) => {},
        }
    }

    fn collect(module: &Module, ops: &Vec<(u32, u32)>) -> (u: RuntimeUses)
        ensures
            u == items_uses(module.items@, module.items@.len(), ops@),
    {
        let mut u = RuntimeUses {
            err: false,
            violation: false,
            none: false,
            ok: false,
            option: false,
            result: false,
            some: false,
            list_get: false,
        };
        proof { lemma_items_uses(module.items@, 0, ops@); }
        let mut k: usize = 0;
        while k < module.items.len()
            invariant
                k <= module.items@.len(),
                u == items_uses(module.items@, k as nat, ops@),
            decreases module.items@.len() - k,
        {
            proof { lemma_items_uses(module.items@, k as nat, ops@); }
            u.item(ops, &module.items[k]);
            k = k + 1;
        }
        u
    }
}

fn push_name(s: &mut String, first: &mut bool, used: bool, name: &str, Ghost(ns): Ghost<Seq<Seq<char>>>)
    requires
        old(s)@ == comma_joined(ns),
        *old(first) == (ns.len() == 0),
    ensures
        final(s)@ == comma_joined(push_if(ns, used, name@)),
        *final(first) == (push_if(ns, used, name@).len() == 0),
{
    if used {
        if !*first {
            push_str(s, ", ");
        }
        push_str(s, name);
        *first = false;
        assert(ns.push(name@).drop_last() =~= ns);
    }
}

// ---------------------------------------------------------------------------
// Statements and functions
// ---------------------------------------------------------------------------

fn emit_block_stmts(out: &mut Out, st: &mut EmitState, ops: &Vec<(u32, u32)>, b: &ast::Block)
    requires
        out_wf(*old(out)),
    ensures
        out_wf(*final(out)),
        final(out).indent == old(out).indent,
        final(out).fixed == old(out).fixed,
        wrote(*old(out), *old(st), *final(out), *final(st),
            block_ts(*b, old(out).indent, old(st).in_ensures, ops@, counters(*old(st)))),
    decreases *b,
{
    let ghost b0 = out.buf@;
    let ghost c0 = counters(*st);
    let ghost ens = st.in_ensures;
    let ghost ind = out.indent;
    proof {
        assert(stmts_ts(b.stmts@, 0, ind, ens, ops@, c0) == (Seq::<char>::empty(), c0)) by {
            reveal(stmts_ts);
        }
        assert(b0 =~= b0 + stmts_ts(b.stmts@, 0, ind, ens, ops@, c0).0);
    }
    let mut i: usize = 0;
    while i < b.stmts.len()
        invariant
            out_wf(*out),
            out.indent == old(out).indent,
            out.fixed == old(out).fixed,
            ind == out.indent,
            ens == st.in_ensures,
            i <= b.stmts@.len(),
            out.buf@ == b0 + stmts_ts(b.stmts@, i as nat, ind, ens, ops@, c0).0,
            counters(*st) == stmts_ts(b.stmts@, i as nat, ind, ens, ops@, c0).1,
        decreases b.stmts@.len() - i,
    {
        let ghost ci = counters(*st);
        assert(decreases_to!(b.stmts@ => b.stmts@[i as int]));
        emit_stmt(out, st, ops, &b.stmts[i]);
        proof {
            let x = stmt_ts(b.stmts@[i as int], ind, ens, ops@, ci);
            let p = stmts_ts(b.stmts@, i as nat, ind, ens, ops@, c0);
            assert(stmts_ts(b.stmts@, (i + 1) as nat, ind, ens, ops@, c0) == (p.0 + x.0, x.1)) by {
                reveal(stmts_ts);
                reveal(stmt_ts);
            }
            assert(out.buf@ =~= b0 + (p.0 + x.0));
        }
        i = i + 1;
    }
    proof {
        assert(block_ts(*b, ind, ens, ops@, c0) == stmts_ts(b.stmts@, b.stmts@.len(), ind, ens, ops@, c0)) by {
            reveal(block_ts);
            reveal(stmts_ts);
        }
    }
}

#[verifier::rlimit(100)]
#[verifier::spinoff_prover]
fn emit_stmt(out: &mut Out, st: &mut EmitState, ops: &Vec<(u32, u32)>, s: &ast::Stmt)
    requires
        out_wf(*old(out)),
    ensures
        out_wf(*final(out)),
        final(out).indent == old(out).indent,
        final(out).fixed == old(out).fixed,
        wrote(*old(out), *old(st), *final(out), *final(st),
            stmt_ts(*s, old(out).indent, old(st).in_ensures, ops@, counters(*old(st)))),
    decreases *s,
{
    let ghost b0 = out.buf@;
    let ghost c0 = counters(*st);
    let ghost ens = st.in_ensures;
    let ghost ind = out.indent;
    match s {
        ast::Stmt::Let(l) => {
            emit_let(out, st, ops, l);
            proof {
                assert(stmt_ts(*s, ind, ens, ops@, c0) == let_ts(*l, ind, ens, ops@, c0)) by {
                    reveal(stmt_ts);
                }
            }
        },
        ast::Stmt::If(i) => {
            out.start_line();
            emit_if_from_line_start(out, st, ops, i);
            proof {
                let x = if_ts(*i, ind, ens, ops@, c0);
                assert(out.buf@ =~= b0 + (indent_of(ind) + x.0));
                assert(stmt_ts(*s, ind, ens, ops@, c0) == (indent_of(ind) + x.0, x.1)) by {
                    reveal(stmt_ts);
                    reveal(if_ts);
                }
            }
        },
        ast::Stmt::Return(r) => {
            out.start_line();
            out.map(r.span);
            match &r.value {
                Some(v) => {
                    out.frag("return ");
                    emit_expr(out, st, ops, v, PREC_OR);
                    out.frag(";");
                    proof {
                        let x = expr_ts(*v, 0, ind, ens, ops@, c0);
                        assert(out.buf@ =~= b0 + (indent_of(ind) + "return "@ + x.0 + ";"@));
                    }
                },
                None => out.frag("return;"),
            }
            out.newline();
            proof {
                assert(stmt_ts(*s, ind, ens, ops@, c0) == (match r.value {
                    Some(v) => {
                        let x = expr_ts(v, 0, ind, ens, ops@, c0);
                        (indent_of(ind) + "return "@ + x.0 + ";"@ + nl(), x.1)
                    },
                    None => (indent_of(ind) + "return;"@ + nl(), c0),
                })) by {
                    reveal(stmt_ts);
                }
                assert(out.buf@ =~= b0 + stmt_ts(*s, ind, ens, ops@, c0).0);
            }
        },
        ast::Stmt::Expr(e) => {
            out.start_line();
            out.map(e.span);
            emit_expr(out, st, ops, &e.expr, PREC_OR);
            out.frag(";");
            out.newline();
            proof {
                let x = expr_ts(e.expr, 0, ind, ens, ops@, c0);
                assert(out.buf@ =~= b0 + (indent_of(ind) + x.0 + ";"@ + nl()));
                assert(stmt_ts(*s, ind, ens, ops@, c0) == (indent_of(ind) + x.0 + ";"@ + nl(), x.1)) by {
                    reveal(stmt_ts);
                }
            }
        },
    }
}

/// `const name: T = value;`
#[verifier::rlimit(60)]
fn emit_let_plain(out: &mut Out, st: &mut EmitState, ops: &Vec<(u32, u32)>, l: &ast::LetStmt, ann: &str)
    requires
        out_wf(*old(out)),
        ann@ == let_annotation(*l),
    ensures
        out_wf(*final(out)),
        final(out).indent == old(out).indent,
        final(out).fixed == old(out).fixed,
        wrote(*old(out), *old(st), *final(out), *final(st), {
            let v = expr_ts(l.value, 0, old(out).indent, old(st).in_ensures, ops@, counters(*old(st)));
            (indent_of(old(out).indent) + "const "@ + l.name.name@ + let_annotation(*l) + " = "@ + v.0 + ";"@ + nl(), v.1)
        }),
{
    let ghost b0 = out.buf@;
    out.start_line();
    out.map(l.span);
    out.frag("const ");
    out.frag(l.name.name.as_str());
    out.frag(ann);
    out.frag(" = ");
    emit_expr(out, st, ops, &l.value, PREC_OR);
    out.frag(";");
    out.newline();
    proof {
        let v = expr_ts(l.value, 0, old(out).indent, old(st).in_ensures, ops@, counters(*old(st)));
        assert(out.buf@ =~= b0 + (indent_of(old(out).indent) + "const "@ + l.name.name@ + let_annotation(*l) + " = "@ + v.0 + ";"@ + nl()));
    }
}

/// The first two lines of `let ... else fail`: the value under a `$` name.
#[verifier::rlimit(60)]
fn emit_let_value(out: &mut Out, st: &mut EmitState, ops: &Vec<(u32, u32)>, l: &ast::LetStmt)
    requires
        out_wf(*old(out)),
    ensures
        out_wf(*final(out)),
        final(out).indent == old(out).indent,
        final(out).fixed == old(out).fixed,
        wrote(*old(out), *old(st), *final(out), *final(st), {
            let v = expr_ts(l.value, 0, old(out).indent, old(st).in_ensures, ops@, counters(*old(st)));
            (indent_of(old(out).indent) + "const "@ + l.name.name@ + "$ = "@ + v.0 + ";"@ + nl(), v.1)
        }),
{
    let ghost b0 = out.buf@;
    out.start_line();
    out.map(l.span);
    out.frag("const ");
    out.frag(l.name.name.as_str());
    out.frag("$ = ");
    emit_expr(out, st, ops, &l.value, PREC_OR);
    out.frag(";");
    out.newline();
    proof {
        let v = expr_ts(l.value, 0, old(out).indent, old(st).in_ensures, ops@, counters(*old(st)));
        assert(out.buf@ =~= b0 + (indent_of(old(out).indent) + "const "@ + l.name.name@ + "$ = "@ + v.0 + ";"@ + nl()));
    }
}

/// The early return of `let ... else fail`: `if (!name$.ok) { return Err(<fail>); }`.
#[verifier::rlimit(60)]
fn emit_let_fail(out: &mut Out, st: &mut EmitState, ops: &Vec<(u32, u32)>, name: &str, fail: &Expr)
    requires
        out_wf(*old(out)),
    ensures
        out_wf(*final(out)),
        final(out).indent == old(out).indent,
        final(out).fixed == old(out).fixed,
        wrote(*old(out), *old(st), *final(out), *final(st), {
            let ind = old(out).indent;
            let f = expr_ts(*fail, 0, bump(ind), old(st).in_ensures, ops@, counters(*old(st)));
            (indent_of(ind) + "if (!"@ + name@ + "$.ok) {"@ + nl()
                + indent_of(bump(ind)) + "return Err("@ + f.0 + ");"@ + nl()
                + indent_of(ind) + "}"@ + nl(), f.1)
        }),
{
    let ghost b0 = out.buf@;
    let mut test = String::new();
    push_str(&mut test, "if (!");
    push_str(&mut test, name);
    push_str(&mut test, "$.ok) {");
    out.line(test.as_str());
    let saved = out.indent;
    out.set_indent(saved.saturating_add(1));
    out.start_line();
    out.map(fail.span());
    out.frag("return Err(");
    emit_expr(out, st, ops, fail, PREC_OR);
    out.frag(");");
    out.newline();
    out.set_indent(saved);
    out.line("}");
    proof {
        let f = expr_ts(*fail, 0, bump(saved), old(st).in_ensures, ops@, counters(*old(st)));
        assert(out.buf@ =~= b0 + (indent_of(saved) + "if (!"@ + name@ + "$.ok) {"@ + nl()
            + indent_of(bump(saved)) + "return Err("@ + f.0 + ");"@ + nl()
            + indent_of(saved) + "}"@ + nl()));
    }
}

/// What `let_ts` is, case by case.
#[verifier::rlimit(60)]
proof fn lemma_let_ts(l: ast::LetStmt, ind: usize, ens: bool, ops: Seq<(u32, u32)>, c: (usize, usize))
    ensures
        l.else_fail is None ==> let_ts(l, ind, ens, ops, c) == {
            let v = expr_ts(l.value, 0, ind, ens, ops, c);
            (indent_of(ind) + "const "@ + l.name.name@ + let_annotation(l) + " = "@ + v.0 + ";"@ + nl(), v.1)
        },
        l.else_fail is Some ==> let_ts(l, ind, ens, ops, c) == {
            let name = l.name.name@;
            let v = expr_ts(l.value, 0, ind, ens, ops, c);
            let f = expr_ts(l.else_fail->0, 0, bump(ind), ens, ops, v.1);
            ((indent_of(ind) + "const "@ + name + "$ = "@ + v.0 + ";"@ + nl())
                + (indent_of(ind) + "if (!"@ + name + "$.ok) {"@ + nl()
                + indent_of(bump(ind)) + "return Err("@ + f.0 + ");"@ + nl()
                + indent_of(ind) + "}"@ + nl())
                + (indent_of(ind) + "const "@ + name + let_annotation(l) + " = "@ + name + "$.value;"@ + nl()), f.1)
        },
{
    reveal(let_ts);
    if l.else_fail is Some {
        let name = l.name.name@;
        let v = expr_ts(l.value, 0, ind, ens, ops, c);
        let f = expr_ts(l.else_fail->0, 0, bump(ind), ens, ops, v.1);
        assert(let_ts(l, ind, ens, ops, c).0 =~= (indent_of(ind) + "const "@ + name + "$ = "@ + v.0 + ";"@ + nl())
                + (indent_of(ind) + "if (!"@ + name + "$.ok) {"@ + nl()
                + indent_of(bump(ind)) + "return Err("@ + f.0 + ");"@ + nl()
                + indent_of(ind) + "}"@ + nl())
                + (indent_of(ind) + "const "@ + name + let_annotation(l) + " = "@ + name + "$.value;"@ + nl()));
    }
}

/// `let`; with `else fail`, the value is unwrapped through the `ok`
/// discriminant shared by `Option` and `Result`, returning `Err(<fail>)` early.
#[verifier::rlimit(100)]
#[verifier::spinoff_prover]
fn emit_let(out: &mut Out, st: &mut EmitState, ops: &Vec<(u32, u32)>, l: &ast::LetStmt)
    requires
        out_wf(*old(out)),
    ensures
        out_wf(*final(out)),
        final(out).indent == old(out).indent,
        final(out).fixed == old(out).fixed,
        wrote(*old(out), *old(st), *final(out), *final(st),
            let_ts(*l, old(out).indent, old(st).in_ensures, ops@, counters(*old(st)))),
{
    let ghost b0 = out.buf@;
    let ghost c0 = counters(*st);
    let ghost ens = st.in_ensures;
    let ghost ind = out.indent;
    let name = l.name.name.as_str();
    let mut ann = String::new();
    if let Some(t) = &l.ty {
        push_str(&mut ann, ": ");
        let ts = ts_type(t);
        push_str(&mut ann, ts.as_str());
    }
    assert(ann@ =~= let_annotation(*l));
    match &l.else_fail {
        None => {
            emit_let_plain(out, st, ops, l, ann.as_str());
            proof {
                lemma_let_ts(*l, ind, ens, ops@, c0);
            }
        },
        Some(fail) => {
            emit_let_value(out, st, ops, l);
            let ghost b1 = out.buf@;
            emit_let_fail(out, st, ops, name, fail);
            let ghost b2 = out.buf@;
            let mut bind = String::new();
            push_str(&mut bind, "const ");
            push_str(&mut bind, name);
            push_str(&mut bind, ann.as_str());
            push_str(&mut bind, " = ");
            push_str(&mut bind, name);
            push_str(&mut bind, "$.value;");
            out.line(bind.as_str());
            proof {
                lemma_let_ts(*l, ind, ens, ops@, c0);
                let v = expr_ts(l.value, 0, ind, ens, ops@, c0);
                let f = expr_ts(*fail, 0, bump(ind), ens, ops@, v.1);
                let name = l.name.name@;
                assert(out.buf@ =~= b2 + (indent_of(ind) + "const "@ + name + let_annotation(*l) + " = "@ + name + "$.value;"@ + nl()));
                assert(out.buf@ =~= b0 + let_ts(*l, ind, ens, ops@, c0).0);
            }
        },
    }
}

/// The head of an `if`: the condition and the `then` branch one level deeper.
#[verifier::rlimit(60)]
fn emit_if_head(out: &mut Out, st: &mut EmitState, ops: &Vec<(u32, u32)>, i: &ast::IfStmt)
    requires
        out_wf(*old(out)),
    ensures
        out_wf(*final(out)),
        final(out).indent == old(out).indent,
        final(out).fixed == old(out).fixed,
        wrote(*old(out), *old(st), *final(out), *final(st), {
            let ind = old(out).indent;
            let cond = expr_ts(i.cond, 0, ind, old(st).in_ensures, ops@, counters(*old(st)));
            let then = block_ts(i.then_block, bump(ind), old(st).in_ensures, ops@, cond.1);
            ("if ("@ + cond.0 + ") {"@ + nl() + then.0, then.1)
        }),
    decreases *i, 0nat,
{
    let ghost b0 = out.buf@;
    out.map(i.span);
    out.frag("if (");
    emit_expr(out, st, ops, &i.cond, PREC_OR);
    out.frag(") {");
    out.newline();
    let saved = out.indent;
    out.set_indent(saved.saturating_add(1));
    emit_block_stmts(out, st, ops, &i.then_block);
    out.set_indent(saved);
    proof {
        let cond = expr_ts(i.cond, 0, saved, old(st).in_ensures, ops@, counters(*old(st)));
        let then = block_ts(i.then_block, bump(saved), old(st).in_ensures, ops@, cond.1);
        assert(out.buf@ =~= b0 + ("if ("@ + cond.0 + ") {"@ + nl() + then.0));
    }
}

#[verifier::rlimit(60)]
fn emit_if_from_line_start(out: &mut Out, st: &mut EmitState, ops: &Vec<(u32, u32)>, i: &ast::IfStmt)
    requires
        out_wf(*old(out)),
    ensures
        out_wf(*final(out)),
        final(out).indent == old(out).indent,
        final(out).fixed == old(out).fixed,
        wrote(*old(out), *old(st), *final(out), *final(st),
            if_ts(*i, old(out).indent, old(st).in_ensures, ops@, counters(*old(st)))),
    decreases *i, 1nat,
{
    let ghost b0 = out.buf@;
    let ghost c0 = counters(*st);
    let ghost ens = st.in_ensures;
    let ghost ind = out.indent;
    emit_if_head(out, st, ops, i);
    let ghost bh = out.buf@;
    let ghost ch = counters(*st);
    let saved = out.indent;
    let ghost mut tail: (Seq<char>, (usize, usize)) = (Seq::empty(), ch);
    match &i.else_branch {
        None => {
            out.line("}");
            proof {
                tail = (indent_of(ind) + "}"@ + nl(), ch);
            }
        },
        Some(ast::ElseBranch::If(nested)) => {
            out.start_line();
            out.frag("} else ");
            emit_if_from_line_start(out, st, ops, nested);
            proof {
                let x = if_ts(**nested, ind, ens, ops@, ch);
                tail = (indent_of(ind) + "} else "@ + x.0, x.1);
            }
        },
        Some(ast::ElseBranch::Block(b)) => {
            out.line("} else {");
            out.set_indent(saved.saturating_add(1));
            emit_block_stmts(out, st, ops, b);
            out.set_indent(saved);
            out.line("}");
            proof {
                let x = block_ts(*b, bump(ind), ens, ops@, ch);
                tail = (indent_of(ind) + "} else {"@ + nl() + x.0 + indent_of(ind) + "}"@ + nl(), x.1);
            }
        },
    }
    proof {
        assert(out.buf@ =~= bh + tail.0);
        let cond = expr_ts(i.cond, 0, ind, ens, ops@, c0);
        let then = block_ts(i.then_block, bump(ind), ens, ops@, cond.1);
        assert(if_ts(*i, ind, ens, ops@, c0) == (("if ("@ + cond.0 + ") {"@ + nl() + then.0) + tail.0, tail.1)) by {
            reveal(if_ts);
            reveal(block_ts);
        }
        assert(out.buf@ =~= b0 + if_ts(*i, ind, ens, ops@, c0).0);
    }
}

/// The contracts as a doc comment (the `uses` clause survives only here).
#[verifier::rlimit(60)]
fn emit_func_doc(out: &mut Out, f: &ast::FuncDecl)
    requires
        out_wf(*old(out)),
        old(out).indent == 0,
    ensures
        out_wf(*final(out)),
        final(out).indent == old(out).indent,
        final(out).fixed == old(out).fixed,
        final(out).buf@ == old(out).buf@ + doc_ts(*f),
{
    let ghost b0 = out.buf@;
    proof { lemma_repeat_indent(); }
    if f.uses.len() == 0 && f.requires.len() == 0 && f.ensures.len() == 0 {
        assert(out.buf@ =~= b0 + doc_ts(*f));
        return;
    }
    out.line("/**");
    if f.uses.len() > 0 {
        let mut t = String::new();
        push_str(&mut t, " * uses ");
        let ghost t0 = t@;
        let mut i: usize = 0;
        while i < f.uses.len()
            invariant
                i <= f.uses@.len(),
                t@ == t0 + uses_text(f.uses@, i as nat),
            decreases f.uses@.len() - i,
        {
            if i > 0 {
                push_str(&mut t, ", ");
            }
            crate::notation::push_path(&mut t, &f.uses[i].path);
            proof {
                if i > 0 {
                    assert(t@ =~= t0 + (uses_text(f.uses@, i as nat) + ", "@ + path_text(f.uses@[i as int].path@, f.uses@[i as int].path@.len())));
                } else {
                    assert(t@ =~= t0 + path_text(f.uses@[0].path@, f.uses@[0].path@.len()));
                }
            }
            i = i + 1;
        }
        out.line(t.as_str());
    }
    let ghost b1 = out.buf@;
    assert(b1 =~= b0 + "/**"@ + nl()
        + (if f.uses@.len() > 0 { " * uses "@ + uses_text(f.uses@, f.uses@.len()) + nl() } else { Seq::empty() }));
    let mut i: usize = 0;
    while i < f.requires.len()
        invariant
            out_wf(*out),
            out.indent == old(out).indent,
            out.indent == 0,
            out.fixed == old(out).fixed,
            i <= f.requires@.len(),
            out.buf@ == b1 + clause_doc_lines(f.requires@, i as nat, " * requires "@),
        decreases f.requires@.len() - i,
    {
        let mut t = String::new();
        push_str(&mut t, " * requires ");
        let c = contract_expr_text(&f.requires[i]);
        push_str(&mut t, c.as_str());
        out.line(t.as_str());
        proof {
            lemma_repeat_indent();
            assert(out.buf@ =~= b1 + clause_doc_lines(f.requires@, (i + 1) as nat, " * requires "@));
        }
        i = i + 1;
    }
    let ghost b2 = out.buf@;
    let mut i: usize = 0;
    while i < f.ensures.len()
        invariant
            out_wf(*out),
            out.indent == old(out).indent,
            out.indent == 0,
            out.fixed == old(out).fixed,
            i <= f.ensures@.len(),
            out.buf@ == b2 + clause_doc_lines(f.ensures@, i as nat, " * ensures "@),
        decreases f.ensures@.len() - i,
    {
        let mut t = String::new();
        push_str(&mut t, " * ensures ");
        let c = contract_expr_text(&f.ensures[i]);
        push_str(&mut t, c.as_str());
        out.line(t.as_str());
        proof {
            lemma_repeat_indent();
            assert(out.buf@ =~= b2 + clause_doc_lines(f.ensures@, (i + 1) as nat, " * ensures "@));
        }
        i = i + 1;
    }
    out.line(" */");
    assert(out.buf@ =~= b0 + doc_ts(*f));
}

/// The fields of a contract violation and the closing brackets of its check.
#[verifier::rlimit(100)]
#[verifier::spinoff_prover]
fn emit_check_tail(out: &mut Out, src_file: &str, clause: &Expr, kind: &str, func: &str)
    requires
        out_wf(*old(out)),
    ensures
        out_wf(*final(out)),
        final(out).indent == old(out).indent,
        final(out).fixed == old(out).fixed,
        final(out).buf@ == old(out).buf@ + check_tail(*clause, kind@, func@, src_file@, old(out).indent),
{
    let ghost b0 = out.buf@;
    let span = clause.span();
    let saved = out.indent;
    let ghost i1 = bump(saved);
    let ghost i2 = bump(i1);
    out.set_indent(saved.saturating_add(1).saturating_add(1));
    let mut t = String::new();
    push_str(&mut t, "clause: \"");
    push_str(&mut t, kind);
    push_str(&mut t, "\",");
    let ghost p = out.buf@;
    out.line(t.as_str());
    proof { lemma_tline(i2, t@); assert(out.buf@ =~= p + tline(i2, t@)); }
    let mut t = String::new();
    push_str(&mut t, "func: \"");
    push_str(&mut t, func);
    push_str(&mut t, "\",");
    let ghost p = out.buf@;
    out.line(t.as_str());
    proof { lemma_tline(i2, t@); assert(out.buf@ =~= p + tline(i2, t@)); }
    let mut t = String::new();
    push_str(&mut t, "condition: ");
    let text = contract_expr_text(clause);
    let q = json_string(text.as_str());
    push_str(&mut t, q.as_str());
    push_str(&mut t, ",");
    let ghost p = out.buf@;
    out.line(t.as_str());
    proof { lemma_tline(i2, t@); assert(out.buf@ =~= p + tline(i2, t@)); }
    let mut t = String::new();
    push_str(&mut t, "file: ");
    let q = json_string(src_file);
    push_str(&mut t, q.as_str());
    push_str(&mut t, ",");
    let ghost p = out.buf@;
    out.line(t.as_str());
    proof { lemma_tline(i2, t@); assert(out.buf@ =~= p + tline(i2, t@)); }
    let mut t = String::new();
    push_str(&mut t, "line: ");
    push_i64(&mut t, span.start.line as i64);
    push_str(&mut t, ",");
    let ghost p = out.buf@;
    out.line(t.as_str());
    proof { lemma_tline(i2, t@); assert(out.buf@ =~= p + tline(i2, t@)); }
    let mut t = String::new();
    push_str(&mut t, "col: ");
    push_i64(&mut t, span.start.col as i64);
    push_str(&mut t, ",");
    let ghost p = out.buf@;
    out.line(t.as_str());
    proof { lemma_tline(i2, t@); assert(out.buf@ =~= p + tline(i2, t@)); }
    out.set_indent(saved.saturating_add(1));
    let ghost p = out.buf@;
    out.line("});");
    proof { lemma_tline(i1, "});"@); assert(out.buf@ =~= p + tline(i1, "});"@)); }
    out.set_indent(saved);
    let ghost p = out.buf@;
    out.line("}");
    proof { lemma_tline(saved, "}"@); assert(out.buf@ =~= p + tline(saved, "}"@)); }
    proof {
        let sp = expr_span(*clause);
        assert(out.buf@ =~= b0 + check_tail(*clause, kind@, func@, src_file@, saved));
    }
}

/// A runtime check of one contract clause: a `KeiContractViolation` naming
/// the clause kind, the function, the clause's canonical Kei text (the same
/// text as the verification report), the file and the clause's position.
#[verifier::rlimit(60)]
fn emit_contract_check(
    out: &mut Out,
    st: &mut EmitState,
    ops: &Vec<(u32, u32)>,
    src_file: &str,
    clause: &Expr,
    kind: &str,
    func: &str,
)
    requires
        out_wf(*old(out)),
    ensures
        out_wf(*final(out)),
        final(out).indent == old(out).indent,
        final(out).fixed == old(out).fixed,
        wrote(*old(out), *old(st), *final(out), *final(st),
            check_ts(*clause, kind@, func@, src_file@, old(out).indent, old(st).in_ensures, ops@, counters(*old(st)))),
{
    let ghost b0 = out.buf@;
    let ghost c0 = counters(*st);
    let ghost ens = st.in_ensures;
    let span = clause.span();
    out.start_line();
    out.map(span);
    out.frag("if (!(");
    let was_ensures = st.in_ensures;
    emit_expr(out, st, ops, clause, PREC_OR);
    st.in_ensures = was_ensures;
    out.frag(")) {");
    out.newline();
    let saved = out.indent;
    out.set_indent(saved.saturating_add(1));
    out.start_line();
    out.map(span);
    out.frag("throw new KeiContractViolation({");
    out.newline();
    out.set_indent(saved);
    let ghost b1 = out.buf@;
    emit_check_tail(out, src_file, clause, kind, func);
    proof {
        let x = expr_ts(*clause, 0, saved, ens, ops@, c0);
        lemma_tline(bump(saved), "throw new KeiContractViolation({"@);
        assert(b1 =~= b0 + (indent_of(saved) + "if (!("@ + x.0 + ")) {"@ + nl()
            + tline(bump(saved), "throw new KeiContractViolation({"@)));
        assert(check_ts(*clause, kind@, func@, src_file@, saved, ens, ops@, c0) == (indent_of(saved) + "if (!("@ + x.0 + ")) {"@ + nl()
            + tline(bump(saved), "throw new KeiContractViolation({"@)
            + check_tail(*clause, kind@, func@, src_file@, saved), x.1)) by {
            reveal(check_ts);
        }
        assert(out.buf@ =~= b0 + check_ts(*clause, kind@, func@, src_file@, saved, ens, ops@, c0).0);
    }
}

/// The argument expressions of the `old(...)` calls in `ensures`, in the
/// order of a left-to-right walk (the order the checks read them back).
fn collect_old_exprs<'a>(clauses: &'a Vec<Expr>) -> (r: Vec<&'a Expr>)
    ensures
        r@.map_values(|x: &Expr| *x) == olds_in_all(clauses@, clauses@.len()),
{
    let mut out: Vec<&'a Expr> = Vec::new();
    let mut i: usize = 0;
    assert(out@.map_values(|x: &Expr| *x) =~= olds_in_all(clauses@, 0));
    while i < clauses.len()
        invariant
            i <= clauses@.len(),
            out@.map_values(|x: &Expr| *x) == olds_in_all(clauses@, i as nat),
        decreases clauses@.len() - i,
    {
        walk_old(&clauses[i], &mut out);
        i = i + 1;
    }
    out
}

fn walk_old<'a>(e: &'a Expr, out: &mut Vec<&'a Expr>)
    ensures
        final(out)@.map_values(|x: &Expr| *x) == old(out)@.map_values(|x: &Expr| *x) + olds_in(*e),
    decreases *e, 1nat,
{
    let ghost o0 = out@.map_values(|x: &Expr| *x);
    match e {
        Expr::Call { callee, args, .. } => {
            if let Expr::Name { name, .. } = &**callee {
                if crate::text::str_eq(name.as_str(), "old") {
                    if args.len() > 0 {
                        out.push(&args[0]);
                        assert(out@.map_values(|x: &Expr| *x) =~= o0 + seq![args@[0]]);
                    } else {
                        assert(out@.map_values(|x: &Expr| *x) =~= o0 + Seq::<Expr>::empty());
                    }
                    return;
                }
            }
            walk_old(callee, out);
            walk_old_all(args, out);
            assert(out@.map_values(|x: &Expr| *x) =~= o0 + olds_in(*e));
        },
        Expr::Field { base, .. } => walk_old(base, out),
        Expr::Unary { expr, .. } => walk_old(expr, out),
        Expr::Binary { lhs, rhs, .. } => {
            walk_old(lhs, out);
            walk_old(rhs, out);
            assert(out@.map_values(|x: &Expr| *x) =~= o0 + olds_in(*e));
        },
        Expr::RecordLit { fields, .. } => {
            let mut i: usize = 0;
            assert(out@.map_values(|x: &Expr| *x) =~= o0 + olds_in_fields(fields@, 0));
            while i < fields.len()
                invariant
                    *e is RecordLit,
                    e->RecordLit_fields == *fields,
                    i <= fields@.len(),
                    out@.map_values(|x: &Expr| *x) == o0 + olds_in_fields(fields@, i as nat),
                decreases fields@.len() - i,
            {
                let ghost before = out@.map_values(|x: &Expr| *x);
                if let Some(v) = &fields[i].value {
                    assert(decreases_to!(fields@ => fields@[i as int]));
                    assert(decreases_to!(fields@[i as int] => fields@[i as int].value));
                    walk_old(v, out);
                }
                assert(out@.map_values(|x: &Expr| *x) =~= before + olds_in_field(fields@[i as int]));
                assert(out@.map_values(|x: &Expr| *x) =~= o0 + olds_in_fields(fields@, (i + 1) as nat));
                i = i + 1;
            }
        },
        Expr::Match { scrutinee, arms, .. } => {
            walk_old(scrutinee, out);
            let ghost o1 = out@.map_values(|x: &Expr| *x);
            let mut i: usize = 0;
            assert(o1 =~= o1 + olds_in_arms(arms@, 0));
            while i < arms.len()
                invariant
                    *e is Match,
                    e->Match_arms == *arms,
                    i <= arms@.len(),
                    out@.map_values(|x: &Expr| *x) == o1 + olds_in_arms(arms@, i as nat),
                decreases arms@.len() - i,
            {
                assert(decreases_to!(arms@ => arms@[i as int]));
                assert(decreases_to!(arms@[i as int] => arms@[i as int].body));
                let ghost before = out@.map_values(|x: &Expr| *x);
                walk_old(&arms[i].body, out);
                assert(olds_in_arm(arms@[i as int]) == olds_in(arms@[i as int].body));
                assert(out@.map_values(|x: &Expr| *x) =~= before + olds_in_arm(arms@[i as int]));
                assert(out@.map_values(|x: &Expr| *x) =~= o1 + olds_in_arms(arms@, (i + 1) as nat));
                i = i + 1;
            }
            assert(out@.map_values(|x: &Expr| *x) =~= o0 + olds_in(*e));
        },
        _ => {
            assert(out@.map_values(|x: &Expr| *x) =~= o0 + olds_in(*e));
        },
    }
}

fn walk_old_all<'a>(es: &'a Vec<Expr>, out: &mut Vec<&'a Expr>)
    ensures
        final(out)@.map_values(|x: &Expr| *x) == old(out)@.map_values(|x: &Expr| *x) + olds_in_all(es@, es@.len()),
    decreases es@, 0nat,
{
    let ghost o0 = out@.map_values(|x: &Expr| *x);
    let mut i: usize = 0;
    assert(o0 =~= o0 + olds_in_all(es@, 0));
    while i < es.len()
        invariant
            i <= es@.len(),
            out@.map_values(|x: &Expr| *x) == o0 + olds_in_all(es@, i as nat),
        decreases es@.len() - i,
    {
        assert(decreases_to!(es@ => es@[i as int]));
        walk_old(&es[i], out);
        assert(out@.map_values(|x: &Expr| *x) =~= o0 + olds_in_all(es@, (i + 1) as nat));
        i = i + 1;
    }
}

/// The doc comment and the signature line of a function.
#[verifier::rlimit(60)]
fn emit_func_head(out: &mut Out, f: &ast::FuncDecl, params: &str, ret: &str)
    requires
        out_wf(*old(out)),
        old(out).indent == 0,
        params@ == params_text(f.params@, f.params@.len()),
        ret@ == ret_text(*f),
    ensures
        out_wf(*final(out)),
        final(out).indent == old(out).indent,
        final(out).fixed == old(out).fixed,
        final(out).buf@ == old(out).buf@ + doc_ts(*f) + signature_text(*f),
{
    let ghost b0 = out.buf@;
    emit_func_doc(out, f);
    let ghost b1 = out.buf@;
    out.start_line();
    out.map(f.span);
    out.frag("export function ");
    out.frag(f.name.name.as_str());
    out.frag("(");
    out.frag(params);
    out.frag("): ");
    out.frag(ret);
    out.frag(" {");
    out.newline();
    proof {
        lemma_repeat_indent();
        assert(out.buf@ =~= b1 + signature_text(*f));
    }
}

/// The runtime checks of `clauses`, in order.
fn emit_checks(out: &mut Out, st: &mut EmitState, ops: &Vec<(u32, u32)>, src_file: &str, clauses: &Vec<Expr>, kind: &str, func: &str)
    requires
        out_wf(*old(out)),
    ensures
        out_wf(*final(out)),
        final(out).indent == old(out).indent,
        final(out).fixed == old(out).fixed,
        wrote(*old(out), *old(st), *final(out), *final(st),
            checks_ts(clauses@, clauses@.len(), kind@, func@, src_file@, old(out).indent, old(st).in_ensures, ops@, counters(*old(st)))),
{
    let ghost b0 = out.buf@;
    let ghost c0 = counters(*st);
    let ghost ens = st.in_ensures;
    let ghost ind = out.indent;
    proof {
        assert(checks_ts(clauses@, 0, kind@, func@, src_file@, ind, ens, ops@, c0) == (Seq::<char>::empty(), c0)) by {
            reveal(checks_ts);
        }
        assert(b0 =~= b0 + Seq::<char>::empty());
    }
    let mut i: usize = 0;
    while i < clauses.len()
        invariant
            out_wf(*out),
            out.indent == old(out).indent,
            out.fixed == old(out).fixed,
            ind == out.indent,
            ens == st.in_ensures,
            i <= clauses@.len(),
            out.buf@ == b0 + checks_ts(clauses@, i as nat, kind@, func@, src_file@, ind, ens, ops@, c0).0,
            counters(*st) == checks_ts(clauses@, i as nat, kind@, func@, src_file@, ind, ens, ops@, c0).1,
        decreases clauses@.len() - i,
    {
        let ghost ci = counters(*st);
        emit_contract_check(out, st, ops, src_file, &clauses[i], kind, func);
        proof {
            let p = checks_ts(clauses@, i as nat, kind@, func@, src_file@, ind, ens, ops@, c0);
            let x = check_ts(clauses@[i as int], kind@, func@, src_file@, ind, ens, ops@, ci);
            assert(checks_ts(clauses@, (i + 1) as nat, kind@, func@, src_file@, ind, ens, ops@, c0) == (p.0 + x.0, x.1)) by {
                reveal(checks_ts);
            }
            assert(out.buf@ =~= b0 + (p.0 + x.0));
        }
        i = i + 1;
    }
}

/// The captures `const kei$old$<k> = <expr>;` of the `old(...)` arguments.
fn emit_old_captures(out: &mut Out, st: &mut EmitState, ops: &Vec<(u32, u32)>, olds: &Vec<&Expr>)
    requires
        out_wf(*old(out)),
    ensures
        out_wf(*final(out)),
        final(out).indent == old(out).indent,
        final(out).fixed == old(out).fixed,
        wrote(*old(out), *old(st), *final(out), *final(st),
            old_lines(olds@.map_values(|x: &Expr| *x), olds@.len(), old(out).indent, old(st).in_ensures, ops@, counters(*old(st)))),
{
    let ghost b0 = out.buf@;
    let ghost c0 = counters(*st);
    let ghost ens = st.in_ensures;
    let ghost ind = out.indent;
    let ghost os = olds@.map_values(|x: &Expr| *x);
    proof {
        assert(old_lines(os, 0, ind, ens, ops@, c0) == (Seq::<char>::empty(), c0)) by {
            reveal(old_lines);
        }
        assert(b0 =~= b0 + Seq::<char>::empty());
    }
    let mut i: usize = 0;
    while i < olds.len()
        invariant
            out_wf(*out),
            out.indent == old(out).indent,
            out.fixed == old(out).fixed,
            ind == out.indent,
            ens == st.in_ensures,
            os == olds@.map_values(|x: &Expr| *x),
            i <= olds@.len(),
            out.buf@ == b0 + old_lines(os, i as nat, ind, ens, ops@, c0).0,
            counters(*st) == old_lines(os, i as nat, ind, ens, ops@, c0).1,
        decreases olds@.len() - i,
    {
        let ghost bi = out.buf@;
        let ghost ci = counters(*st);
        let ex: &Expr = olds[i];
        out.start_line();
        out.map(ex.span());
        let mut t = String::new();
        push_str(&mut t, "const kei$old$");
        push_usize(&mut t, i);
        push_str(&mut t, " = ");
        out.frag(t.as_str());
        emit_expr(out, st, ops, ex, PREC_OR);
        out.frag(";");
        out.newline();
        proof {
            let p = old_lines(os, i as nat, ind, ens, ops@, c0);
            assert(os[i as int] == *ex);
            let x = expr_ts(os[i as int], 0, ind, ens, ops@, ci);
            let line = indent_of(ind) + "const kei$old$"@ + decimal(i as nat) + " = "@ + x.0 + ";"@ + nl();
            assert(out.buf@ =~= bi + line);
            assert(old_lines(os, (i + 1) as nat, ind, ens, ops@, c0) == (p.0 + line, x.1)) by {
                reveal(old_lines);
                assert(p.0 + indent_of(ind) + "const kei$old$"@ + decimal(i as nat) + " = "@ + x.0 + ";"@ + nl() =~= p.0 + line);
            }
            assert(out.buf@ =~= b0 + (p.0 + line));
        }
        i = i + 1;
    }
}

/// A body whose result the `ensures` checks read: the body runs in an
/// arrow function bound to `kei$result`, the checks follow (reading the
/// captures back from `kei$old$0`), then the result is returned.
#[verifier::rlimit(80)]
fn emit_checked_body(out: &mut Out, st: &mut EmitState, ops: &Vec<(u32, u32)>, src_file: &str, f: &ast::FuncDecl, ret: &str)
    requires
        out_wf(*old(out)),
        old(out).indent == 1,
        !old(st).in_ensures,
        ret@ == ret_text(*f),
    ensures
        out_wf(*final(out)),
        final(out).indent == old(out).indent,
        final(out).fixed == old(out).fixed,
        !final(st).in_ensures,
        ({
            let body = block_ts(f.body, 2, false, ops@, counters(*old(st)));
            let bc = body.1;
            let ens = checks_ts(f.ensures@, f.ensures@.len(), "ensures"@, f.name.name@, src_file@, 1, true, ops@, (0, bc.1));
            &&& final(out).buf@ == old(out).buf@ + (indent_of(1) + "const kei$result = ((): "@ + ret_text(*f) + " => {"@ + nl() + body.0
                + indent_of(1) + "})();"@ + nl() + ens.0 + indent_of(1) + "return kei$result;"@ + nl())
            &&& counters(*final(st)) == ens.1
        }),
{
    let ghost b0 = out.buf@;
    let ghost c0 = counters(*st);
    let mut t = String::new();
    push_str(&mut t, "const kei$result = ((): ");
    push_str(&mut t, ret);
    push_str(&mut t, " => {");
    out.line(t.as_str());
    out.set_indent(2);
    emit_block_stmts(out, st, ops, &f.body);
    out.set_indent(1);
    out.line("})();");
    let ghost b1 = out.buf@;
    let ghost c1 = counters(*st);
    st.old_counter = 0;
    st.in_ensures = true;
    emit_checks(out, st, ops, src_file, &f.ensures, "ensures", f.name.name.as_str());
    let ghost b2 = out.buf@;
    st.in_ensures = false;
    out.line("return kei$result;");
    proof {
        let body = block_ts(f.body, 2, false, ops@, c0);
        assert(b1 =~= b0 + (indent_of(1) + "const kei$result = ((): "@ + ret_text(*f) + " => {"@ + nl() + body.0
            + indent_of(1) + "})();"@ + nl()));
        assert(out.buf@ =~= b2 + (indent_of(1) + "return kei$result;"@ + nl()));
    }
}

/// A function: the doc comment, the signature, the `requires` checks, the
/// `old(...)` captures, then the body; with `ensures`, the body runs in an
/// arrow function whose result the `ensures` checks read as `result`.
#[verifier::rlimit(80)]
fn emit_func(out: &mut Out, st: &mut EmitState, ops: &Vec<(u32, u32)>, src_file: &str, f: &ast::FuncDecl)
    requires
        out_wf(*old(out)),
        old(out).indent == 0,
        !old(st).in_ensures,
    ensures
        out_wf(*final(out)),
        final(out).indent == old(out).indent,
        final(out).fixed == old(out).fixed,
        !final(st).in_ensures,
        final(out).buf@ == old(out).buf@ + func_ts(*f, src_file@, ops@, counters(*old(st))).0,
        counters(*final(st)) == func_ts(*f, src_file@, ops@, counters(*old(st))).1,
{
    let ghost b0 = out.buf@;
    let ghost c0 = counters(*st);
    let mut params = String::new();
    let mut i: usize = 0;
    while i < f.params.len()
        invariant
            i <= f.params@.len(),
            params@ == params_text(f.params@, i as nat),
        decreases f.params@.len() - i,
    {
        let ghost p0 = params@;
        if i > 0 {
            push_str(&mut params, ", ");
        }
        push_str(&mut params, f.params[i].name.name.as_str());
        push_str(&mut params, ": ");
        let t = ts_type(&f.params[i].ty);
        push_str(&mut params, t.as_str());
        proof {
            if i > 0 {
                assert(params@ =~= p0 + ", "@ + f.params@[i as int].name.name@ + ": "@ + ts_type_text(f.params@[i as int].ty));
            } else {
                assert(params@ =~= f.params@[0].name.name@ + ": "@ + ts_type_text(f.params@[0].ty));
            }
        }
        i = i + 1;
    }
    let ret = match &f.ret {
        Some(t) => ts_type(t),
        None => crate::text::owned("void"),
    };
    let fname = f.name.name.as_str();
    emit_func_head(out, f, params.as_str(), ret.as_str());
    let ghost bh = out.buf@;
    out.set_indent(1);
    emit_checks(out, st, ops, src_file, &f.requires, "requires", fname);
    let olds = collect_old_exprs(&f.ensures);
    emit_old_captures(out, st, ops, &olds);
    let ghost bo = out.buf@;
    let ghost co = counters(*st);
    proof {
        let name = f.name.name@;
        let req = checks_ts(f.requires@, f.requires@.len(), "requires"@, name, src_file@, 1, false, ops@, c0);
        let os = olds_in_all(f.ensures@, f.ensures@.len());
        assert(olds@.map_values(|x: &Expr| *x) == os);
        let ol = old_lines(os, os.len(), 1, false, ops@, req.1);
        assert(bo =~= b0 + (doc_ts(*f) + signature_text(*f) + req.0 + ol.0));
        assert(co == ol.1);
    }
    if f.ensures.len() == 0 {
        emit_block_stmts(out, st, ops, &f.body);
    } else {
        emit_checked_body(out, st, ops, src_file, f, ret.as_str());
    }
    out.set_indent(0);
    let ghost bb = out.buf@;
    out.line("}");
    proof {
        lemma_repeat_indent();
        assert(out.buf@ =~= bb + ("}"@ + nl()));
        assert(out.buf@ =~= b0 + func_ts(*f, src_file@, ops@, c0).0);
    }
}

// ---------------------------------------------------------------------------
// Declarations
// ---------------------------------------------------------------------------

/// A line break.
pub open spec fn nl() -> Seq<char> {
    seq!['\n']
}

/// The generated import of `imp` (one line).
pub open spec fn import_text(decl: Option<ast::ModuleDecl>, imp: ast::Import) -> Seq<char> {
    let head = if imp.names@.len() > 0 {
        "import { "@ + names_text(imp.names@, imp.names@.len(), ", "@) + " } from \""@
    } else {
        "import * as "@ + (match imp.alias {
            Some(a) => a.name@,
            None => if imp.path@.len() > 0 { imp.path@.last().name@ } else { "mod"@ },
        }) + " from \""@
    };
    head + import_specifier_text(decl, imp.path@) + "\";"@ + nl()
}

/// The declaration line of a type alias (without its line break): the
/// type, branded when tagged.
pub open spec fn alias_decl(a: ast::TypeAlias) -> Seq<char> {
    let head = "export type "@ + a.name.name@ + " = "@ + ts_type_text(a.ty);
    match a.tag {
        Some(tag) => head + " & { readonly __keiTag: \""@ + tag@ + "\" };"@,
        None => head + ";"@,
    }
}

/// The head of the function that brands a value of a tagged alias.
pub open spec fn alias_brand_head(a: ast::TypeAlias) -> Seq<char> {
    "export function "@ + a.name.name@ + "(value: "@ + ts_type_text(a.ty) + "): "@ + a.name.name@ + " {"@
}

/// The body line of the branding function.
pub open spec fn alias_brand_body(a: ast::TypeAlias) -> Seq<char> {
    "return value as "@ + a.name.name@ + ";"@
}

/// A type alias: the type, branded when tagged, and then a function that
/// brands a value of the underlying type.
pub open spec fn alias_text(a: ast::TypeAlias) -> Seq<char> {
    match a.tag {
        Some(_) => alias_decl(a) + nl() + nl() + alias_brand_head(a) + nl() + "  "@ + alias_brand_body(a) + nl() + "}"@ + nl(),
        None => alias_decl(a) + nl(),
    }
}

/// One field of a record type, on a line of its own.
pub open spec fn field_line(f: ast::FieldDef) -> Seq<char> {
    "  "@ + "readonly "@ + f.name.name@ + ": "@ + ts_type_text(f.ty) + ";"@ + nl()
}

/// The lines of the first `n` fields.
pub open spec fn field_lines(fs: Seq<ast::FieldDef>, n: nat) -> Seq<char>
    decreases n,
{
    if n == 0 || n > fs.len() {
        Seq::empty()
    } else {
        field_lines(fs, (n - 1) as nat) + field_line(fs[n - 1])
    }
}

/// The first line of a record's object type.
pub open spec fn record_head(name: Seq<char>) -> Seq<char> {
    "export type "@ + name + " = {"@
}

/// The head of a record's constructor function.
pub open spec fn record_fn_head(name: Seq<char>) -> Seq<char> {
    "export function "@ + name + "(fields: "@ + name + "): "@ + name + " {"@
}

/// A record: the object type (one field per line) and its constructor.
pub open spec fn record_text(r: ast::RecordDecl) -> Seq<char> {
    let name = r.name.name@;
    record_head(name) + nl() + field_lines(r.fields@, r.fields@.len()) + "};"@ + nl() + nl()
        + record_fn_head(name) + nl() + "  "@ + "return fields;"@ + nl() + "}"@ + nl()
}

/// A field of an inline object type: `readonly a: A`.
pub open spec fn field_type_item(f: ast::FieldDef) -> Seq<char> {
    "readonly "@ + f.name.name@ + ": "@ + ts_type_text(f.ty)
}

/// The first `n` fields of an inline object type, joined with `; `.
pub open spec fn field_type_items(fs: Seq<ast::FieldDef>, n: nat) -> Seq<char>
    decreases n,
{
    if n == 0 || n > fs.len() {
        Seq::empty()
    } else if n == 1 {
        field_type_item(fs[0])
    } else {
        field_type_items(fs, (n - 1) as nat) + "; "@ + field_type_item(fs[n - 1])
    }
}

/// `{ readonly a: A; readonly b: B }`
pub open spec fn fields_type_text(fs: Seq<ast::FieldDef>) -> Seq<char> {
    "{ "@ + field_type_items(fs, fs.len()) + " }"@
}

/// The union member of a variant, discriminated by `kind`.
pub open spec fn member_text(v: ast::Variant) -> Seq<char> {
    "| { readonly kind: \""@ + v.name.name@ + "\""@ + (match v.payload {
        ast::VariantPayload::Unit => Seq::empty(),
        ast::VariantPayload::Tuple { types } => "; readonly values: readonly ["@ + ts_types_text(types@, types@.len()) + "]"@,
        ast::VariantPayload::Record { fields } => "; readonly fields: "@ + fields_type_text(fields@),
    }) + " }"@
}

/// The first `n` positional parameters of a constructor: `v0: A, v1: B`.
pub open spec fn ctor_params(ts: Seq<Type>, n: nat) -> Seq<char>
    decreases n,
{
    if n == 0 || n > ts.len() {
        Seq::empty()
    } else if n == 1 {
        "v"@ + decimal(0) + ": "@ + ts_type_text(ts[0])
    } else {
        ctor_params(ts, (n - 1) as nat) + ", "@ + "v"@ + decimal((n - 1) as nat) + ": "@ + ts_type_text(ts[n - 1])
    }
}

/// `v0, v1, ...` up to `n` names.
pub open spec fn ctor_args(n: nat) -> Seq<char>
    decreases n,
{
    if n == 0 {
        Seq::empty()
    } else if n == 1 {
        "v"@ + decimal(0)
    } else {
        ctor_args((n - 1) as nat) + ", "@ + "v"@ + decimal((n - 1) as nat)
    }
}

/// The constructor of a variant, a member of the enum's constructor object.
pub open spec fn ctor_text(en: Seq<char>, v: ast::Variant) -> Seq<char> {
    let kind = v.name.name@;
    match v.payload {
        ast::VariantPayload::Unit => kind + ": { kind: \""@ + kind + "\" } as "@ + en + ","@,
        ast::VariantPayload::Tuple { types } => kind + ": ("@ + ctor_params(types@, types@.len()) + "): "@ + en
            + " => ({ kind: \""@ + kind + "\", values: ["@ + ctor_args(types@.len()) + "] }),"@,
        ast::VariantPayload::Record { fields } => kind + ": (fields: "@ + fields_type_text(fields@) + "): "@ + en
            + " => ({ kind: \""@ + kind + "\", fields }),"@,
    }
}

/// The member lines of the first `n` of `total` variants; the last member
/// ends the declaration with `;`.
pub open spec fn member_lines(vs: Seq<ast::Variant>, n: nat, total: nat) -> Seq<char>
    decreases n,
{
    if n == 0 || n > vs.len() {
        Seq::empty()
    } else {
        member_lines(vs, (n - 1) as nat, total) + "  "@ + member_text(vs[n - 1]) + (if n == total { ";"@ } else { Seq::empty() }) + nl()
    }
}

/// The constructor lines of the first `n` variants.
pub open spec fn ctor_lines(en: Seq<char>, vs: Seq<ast::Variant>, n: nat) -> Seq<char>
    decreases n,
{
    if n == 0 || n > vs.len() {
        Seq::empty()
    } else {
        ctor_lines(en, vs, (n - 1) as nat) + "  "@ + ctor_text(en, vs[n - 1]) + nl()
    }
}

/// The first line of an enum's union type.
pub open spec fn enum_head(name: Seq<char>, n: nat) -> Seq<char> {
    "export type "@ + name + " ="@ + (if n == 0 { ";"@ } else { Seq::empty() })
}

/// The first line of an enum's object of constructors.
pub open spec fn enum_const_head(name: Seq<char>) -> Seq<char> {
    "export const "@ + name + " = {"@
}

/// An enum: the union type and the object of constructors.
pub open spec fn enum_text(e: ast::EnumDecl) -> Seq<char> {
    let name = e.name.name@;
    let n = e.variants@.len();
    enum_head(name, n) + nl() + member_lines(e.variants@, n, n) + nl()
        + enum_const_head(name) + nl() + ctor_lines(name, e.variants@, n) + "};"@ + nl()
}

proof fn lemma_repeat_indent()
    ensures
        repeat_text("  "@, 0) == Seq::<char>::empty(),
        repeat_text("  "@, 1) == "  "@,
{
    assert(repeat_text("  "@, 1) =~= repeat_text("  "@, 0) + "  "@);
}


fn emit_import(out: &mut Out, decl: &Option<ast::ModuleDecl>, imp: &ast::Import)
    requires
        out_wf(*old(out)),
        old(out).indent == 0,
    ensures
        out_wf(*final(out)),
        final(out).indent == old(out).indent,
        final(out).fixed == old(out).fixed,
        final(out).buf@ == old(out).buf@ + import_text(*decl, *imp),
{
    let ghost b0 = out.buf@;
    let mut spec = String::new();
    push_import_specifier(&mut spec, decl, &imp.path);
    let mut t = String::new();
    if imp.names.len() > 0 {
        push_str(&mut t, "import { ");
        crate::notation::push_names(&mut t, &imp.names, ", ");
        push_str(&mut t, " } from \"");
    } else {
        push_str(&mut t, "import * as ");
        match &imp.alias {
            Some(a) => push_str(&mut t, a.name.as_str()),
            None => {
                if imp.path.len() > 0 {
                    push_str(&mut t, imp.path[imp.path.len() - 1].name.as_str());
                } else {
                    push_str(&mut t, "mod");
                }
            },
        }
        push_str(&mut t, " from \"");
    }
    push_str(&mut t, spec.as_str());
    push_str(&mut t, "\";");
    out.start_line();
    out.map(imp.span);
    out.frag(t.as_str());
    out.newline();
    proof {
        lemma_repeat_indent();
        assert(out.buf@ =~= b0 + import_text(*decl, *imp));
    }
}

#[verifier::rlimit(80)]
#[verifier::spinoff_prover]
fn emit_alias(out: &mut Out, a: &ast::TypeAlias)
    requires
        out_wf(*old(out)),
        old(out).indent == 0,
    ensures
        out_wf(*final(out)),
        final(out).indent == old(out).indent,
        final(out).fixed == old(out).fixed,
        final(out).buf@ == old(out).buf@ + alias_text(*a),
{
    let ghost b0 = out.buf@;
    proof { lemma_repeat_indent(); }
    let name = a.name.name.as_str();
    let underlying = ts_type(&a.ty);
    out.start_line();
    out.map(a.span);
    let mut t = String::new();
    push_str(&mut t, "export type ");
    push_str(&mut t, name);
    push_str(&mut t, " = ");
    push_str(&mut t, underlying.as_str());
    match &a.tag {
        Some(tag) => {
            push_str(&mut t, " & { readonly __keiTag: \"");
            push_str(&mut t, tag.as_str());
            push_str(&mut t, "\" };");
            assert(t@ =~= alias_decl(*a));
            out.frag(t.as_str());
            out.newline();
            out.newline();
            let ghost b1 = out.buf@;
            assert(b1 =~= b0 + alias_decl(*a) + nl() + nl());
            let mut h = String::new();
            push_str(&mut h, "export function ");
            push_str(&mut h, name);
            push_str(&mut h, "(value: ");
            push_str(&mut h, underlying.as_str());
            push_str(&mut h, "): ");
            push_str(&mut h, name);
            push_str(&mut h, " {");
            assert(h@ =~= alias_brand_head(*a));
            out.line(h.as_str());
            let ghost b2 = out.buf@;
            assert(b2 =~= b1 + alias_brand_head(*a) + nl());
            let saved = out.indent;
            out.set_indent(saved.saturating_add(1));
            let mut r = String::new();
            push_str(&mut r, "return value as ");
            push_str(&mut r, name);
            push_str(&mut r, ";");
            assert(r@ =~= alias_brand_body(*a));
            out.line(r.as_str());
            let ghost b3 = out.buf@;
            assert(b3 =~= b2 + "  "@ + alias_brand_body(*a) + nl());
            out.set_indent(saved);
            out.line("}");
            assert(out.buf@ =~= b3 + "}"@ + nl());
            assert(out.buf@ =~= b0 + alias_text(*a));
        },
        None => {
            push_str(&mut t, ";");
            assert(t@ =~= alias_decl(*a));
            out.frag(t.as_str());
            out.newline();
            assert(out.buf@ =~= b0 + alias_text(*a));
        },
    }
}

#[verifier::rlimit(80)]
#[verifier::spinoff_prover]
fn emit_record(out: &mut Out, r: &ast::RecordDecl)
    requires
        out_wf(*old(out)),
        old(out).indent == 0,
    ensures
        out_wf(*final(out)),
        final(out).indent == old(out).indent,
        final(out).fixed == old(out).fixed,
        final(out).buf@ == old(out).buf@ + record_text(*r),
{
    let ghost b0 = out.buf@;
    proof { lemma_repeat_indent(); }
    let name = r.name.name.as_str();
    out.start_line();
    out.map(r.span);
    out.frag("export type ");
    out.frag(name);
    out.frag(" = {");
    out.newline();
    let ghost b1 = out.buf@;
    assert(b1 =~= b0 + record_head(name@) + nl());
    let saved = out.indent;
    out.set_indent(saved.saturating_add(1));
    let mut i: usize = 0;
    while i < r.fields.len()
        invariant
            out_wf(*out),
            out.indent == 1,
            saved == 0,
            out.fixed == old(out).fixed,
            i <= r.fields@.len(),
            out.buf@ == b1 + field_lines(r.fields@, i as nat),
        decreases r.fields@.len() - i,
    {
        let ghost bi = out.buf@;
        let f = &r.fields[i];
        out.start_line();
        out.map(f.span);
        let mut t = String::new();
        push_str(&mut t, "readonly ");
        push_str(&mut t, f.name.name.as_str());
        push_str(&mut t, ": ");
        let ty = ts_type(&f.ty);
        push_str(&mut t, ty.as_str());
        push_str(&mut t, ";");
        out.frag(t.as_str());
        out.newline();
        proof {
            lemma_repeat_indent();
            assert(out.buf@ =~= bi + field_line(r.fields@[i as int]));
            assert(field_lines(r.fields@, (i + 1) as nat) == field_lines(r.fields@, i as nat) + field_line(r.fields@[i as int]));
            assert(out.buf@ =~= b1 + field_lines(r.fields@, (i + 1) as nat));
        }
        i = i + 1;
    }
    let ghost b2 = out.buf@;
    out.set_indent(saved);
    out.line("};");
    out.newline();
    let ghost b3 = out.buf@;
    assert(b3 =~= b2 + "};"@ + nl() + nl());
    let mut h = String::new();
    push_str(&mut h, "export function ");
    push_str(&mut h, name);
    push_str(&mut h, "(fields: ");
    push_str(&mut h, name);
    push_str(&mut h, "): ");
    push_str(&mut h, name);
    push_str(&mut h, " {");
    assert(h@ =~= record_fn_head(name@));
    out.line(h.as_str());
    let ghost b4 = out.buf@;
    assert(b4 =~= b3 + record_fn_head(name@) + nl());
    out.set_indent(saved.saturating_add(1));
    out.line("return fields;");
    let ghost b5 = out.buf@;
    assert(b5 =~= b4 + "  "@ + "return fields;"@ + nl());
    out.set_indent(saved);
    out.line("}");
    assert(out.buf@ =~= b5 + "}"@ + nl());
    assert(out.buf@ =~= b0 + record_text(*r));
}

/// `{ readonly a: A; readonly b: B }`
fn record_fields_type(fields: &Vec<ast::FieldDef>) -> (r: String)
    ensures
        r@ == fields_type_text(fields@),
{
    let mut t = String::new();
    push_str(&mut t, "{ ");
    let mut i: usize = 0;
    while i < fields.len()
        invariant
            i <= fields@.len(),
            t@ == "{ "@ + field_type_items(fields@, i as nat),
        decreases fields@.len() - i,
    {
        let ghost t0 = t@;
        if i > 0 {
            push_str(&mut t, "; ");
        }
        push_str(&mut t, "readonly ");
        push_str(&mut t, fields[i].name.name.as_str());
        push_str(&mut t, ": ");
        let ty = ts_type(&fields[i].ty);
        push_str(&mut t, ty.as_str());
        proof {
            if i > 0 {
                assert(t@ =~= "{ "@ + (field_type_items(fields@, i as nat) + "; "@ + field_type_item(fields@[i as int])));
            } else {
                assert(t@ =~= "{ "@ + field_type_item(fields@[0]));
            }
        }
        i = i + 1;
    }
    push_str(&mut t, " }");
    t
}

/// The union member of one variant, discriminated by `kind`.
fn variant_member(v: &ast::Variant) -> (r: String)
    ensures
        r@ == member_text(*v),
{
    let kind = v.name.name.as_str();
    let mut t = String::new();
    push_str(&mut t, "| { readonly kind: \"");
    push_str(&mut t, kind);
    push_str(&mut t, "\"");
    let ghost t0 = t@;
    match &v.payload {
        ast::VariantPayload::Unit => {},
        ast::VariantPayload::Tuple { types } => {
            push_str(&mut t, "; readonly values: readonly [");
            push_ts_types(&mut t, types);
            push_str(&mut t, "]");
        },
        ast::VariantPayload::Record { fields } => {
            push_str(&mut t, "; readonly fields: ");
            let ft = record_fields_type(fields);
            push_str(&mut t, ft.as_str());
        },
    }
    push_str(&mut t, " }");
    assert(t@ =~= member_text(*v));
    t
}

/// The constructor of one variant, a member of the enum's constructor object.
fn variant_constructor(enum_name: &str, v: &ast::Variant) -> (r: String)
    ensures
        r@ == ctor_text(enum_name@, *v),
{
    let kind = v.name.name.as_str();
    let mut t = String::new();
    push_str(&mut t, kind);
    match &v.payload {
        ast::VariantPayload::Unit => {
            push_str(&mut t, ": { kind: \"");
            push_str(&mut t, kind);
            push_str(&mut t, "\" } as ");
            push_str(&mut t, enum_name);
            push_str(&mut t, ",");
        },
        ast::VariantPayload::Tuple { types } => {
            push_str(&mut t, ": (");
            let ghost t1 = t@;
            let mut i: usize = 0;
            while i < types.len()
                invariant
                    i <= types@.len(),
                    t@ == t1 + ctor_params(types@, i as nat),
                decreases types@.len() - i,
            {
                if i > 0 {
                    push_str(&mut t, ", ");
                }
                push_str(&mut t, "v");
                push_usize(&mut t, i);
                push_str(&mut t, ": ");
                let ty = ts_type(&types[i]);
                push_str(&mut t, ty.as_str());
                proof {
                    if i > 0 {
                        assert(t@ =~= t1 + (ctor_params(types@, i as nat) + ", "@ + "v"@ + decimal(i as nat) + ": "@ + ts_type_text(types@[i as int])));
                    } else {
                        assert(t@ =~= t1 + ("v"@ + decimal(0) + ": "@ + ts_type_text(types@[0])));
                    }
                }
                i = i + 1;
            }
            push_str(&mut t, "): ");
            push_str(&mut t, enum_name);
            push_str(&mut t, " => ({ kind: \"");
            push_str(&mut t, kind);
            push_str(&mut t, "\", values: [");
            let ghost t2 = t@;
            let mut i: usize = 0;
            while i < types.len()
                invariant
                    i <= types@.len(),
                    t@ == t2 + ctor_args(i as nat),
                decreases types@.len() - i,
            {
                if i > 0 {
                    push_str(&mut t, ", ");
                }
                push_str(&mut t, "v");
                push_usize(&mut t, i);
                proof {
                    if i > 0 {
                        assert(t@ =~= t2 + (ctor_args(i as nat) + ", "@ + "v"@ + decimal(i as nat)));
                    } else {
                        assert(t@ =~= t2 + ("v"@ + decimal(0)));
                    }
                }
                i = i + 1;
            }
            push_str(&mut t, "] }),");
        },
        ast::VariantPayload::Record { fields } => {
            push_str(&mut t, ": (fields: ");
            let ft = record_fields_type(fields);
            push_str(&mut t, ft.as_str());
            push_str(&mut t, "): ");
            push_str(&mut t, enum_name);
            push_str(&mut t, " => ({ kind: \"");
            push_str(&mut t, kind);
            push_str(&mut t, "\", fields }),");
        },
    }
    assert(t@ =~= ctor_text(enum_name@, *v));
    t
}

/// An enum: the union type (one member per line, the last one ending the
/// declaration with `;`) and the object of constructors.
#[verifier::rlimit(80)]
#[verifier::spinoff_prover]
fn emit_enum(out: &mut Out, en: &ast::EnumDecl)
    requires
        out_wf(*old(out)),
        old(out).indent == 0,
    ensures
        out_wf(*final(out)),
        final(out).indent == old(out).indent,
        final(out).fixed == old(out).fixed,
        final(out).buf@ == old(out).buf@ + enum_text(*en),
{
    let ghost b0 = out.buf@;
    proof { lemma_repeat_indent(); }
    let name = en.name.name.as_str();
    let n = en.variants.len();
    out.start_line();
    out.map(en.span);
    out.frag("export type ");
    out.frag(name);
    out.frag(" =");
    if n == 0 {
        out.frag(";");
    }
    out.newline();
    let ghost b1 = out.buf@;
    assert(b1 =~= b0 + enum_head(name@, n as nat) + nl());
    let saved = out.indent;
    out.set_indent(saved.saturating_add(1));
    let mut i: usize = 0;
    while i < n
        invariant
            n == en.variants@.len(),
            out_wf(*out),
            out.indent == 1,
            saved == 0,
            out.fixed == old(out).fixed,
            i <= n,
            out.buf@ == b1 + member_lines(en.variants@, i as nat, n as nat),
        decreases n - i,
    {
        let ghost bi = out.buf@;
        let v = &en.variants[i];
        let member = variant_member(v);
        out.start_line();
        out.map(v.span);
        out.frag(member.as_str());
        if i + 1 == n {
            out.frag(";");
        }
        out.newline();
        proof {
            lemma_repeat_indent();
            assert(out.buf@ =~= bi + ("  "@ + member_text(en.variants@[i as int])
                + (if i + 1 == n { ";"@ } else { Seq::empty() }) + nl()));
            assert(member_lines(en.variants@, (i + 1) as nat, n as nat) == member_lines(en.variants@, i as nat, n as nat)
                + "  "@ + member_text(en.variants@[i as int]) + (if i + 1 == n { ";"@ } else { Seq::empty() }) + nl());
            assert(out.buf@ =~= b1 + member_lines(en.variants@, (i + 1) as nat, n as nat));
        }
        i = i + 1;
    }
    let ghost bm = out.buf@;
    out.set_indent(saved);
    out.newline();
    let mut h = String::new();
    push_str(&mut h, "export const ");
    push_str(&mut h, name);
    push_str(&mut h, " = {");
    assert(h@ =~= enum_const_head(name@));
    out.line(h.as_str());
    let ghost b2 = out.buf@;
    assert(b2 =~= bm + nl() + enum_const_head(name@) + nl());
    out.set_indent(saved.saturating_add(1));
    let mut i: usize = 0;
    while i < n
        invariant
            n == en.variants@.len(),
            out_wf(*out),
            out.indent == 1,
            saved == 0,
            out.fixed == old(out).fixed,
            i <= n,
            out.buf@ == b2 + ctor_lines(name@, en.variants@, i as nat),
        decreases n - i,
    {
        let ghost bi = out.buf@;
        let c = variant_constructor(name, &en.variants[i]);
        out.line(c.as_str());
        proof {
            lemma_repeat_indent();
            assert(out.buf@ =~= b2 + ctor_lines(name@, en.variants@, (i + 1) as nat));
        }
        i = i + 1;
    }
    let ghost bc = out.buf@;
    out.set_indent(saved);
    out.line("};");
    assert(out.buf@ =~= bc + "};"@ + nl());
    assert(out.buf@ =~= b0 + enum_text(*en));
}

// ---------------------------------------------------------------------------
// Modules
// ---------------------------------------------------------------------------

/// The two comment lines every generated file starts with.
pub open spec fn header_text(file: Seq<char>) -> Seq<char> {
    "// Generated by kei_emit from "@ + file + ".\n// Do not edit; regenerate with `kei build`.\n"@
}

/// The last line of a generated file, which points at its source map.
pub open spec fn source_mapping_line(ts_file: Seq<char>) -> Seq<char> {
    "//# sourceMappingURL="@ + ts_file + ".map\n"@
}

/// The generated position of every mapping is a position inside `text`
/// (where the text of its construct begins), and the mappings are ordered by
/// generated line, then column.
pub open spec fn mappings_placed(text: Seq<char>, ms: Seq<Mapping>) -> bool {
    &&& forall|i: int| 0 <= i < ms.len() ==> exists|k: int| 0 <= k <= text.len()
        && (#[trigger] ms[i]).gen_line == pos_of(text.take(k)).0 && ms[i].gen_col == pos_of(text.take(k)).1
    &&& forall|i: int, j: int| 0 <= i < j < ms.len() ==> pos_le((#[trigger] ms[i].gen_line, ms[i].gen_col), (#[trigger] ms[j].gen_line, ms[j].gen_col))
}

/// The generated imports of the first `n` imports, one line each.
pub open spec fn imports_text(decl: Option<ast::ModuleDecl>, imps: Seq<ast::Import>, n: nat) -> Seq<char>
    decreases n,
{
    if n == 0 || n > imps.len() {
        Seq::empty()
    } else {
        imports_text(decl, imps, (n - 1) as nat) + import_text(decl, imps[n - 1])
    }
}

/// The block of imports, after a blank line unless the runtime import
/// already opened the block.
pub open spec fn imports_block(decl: Option<ast::ModuleDecl>, imps: Seq<ast::Import>, blank: bool) -> Seq<char> {
    if imps.len() > 0 {
        (if blank { nl() } else { Seq::empty() }) + imports_text(decl, imps, imps.len())
    } else {
        Seq::empty()
    }
}

/// The runtime import text of a module: a blank line and one import of the
/// `@kei/runtime` names the module uses, in byte order, or nothing when it
/// uses none.
pub open spec fn runtime_block(rt: Seq<char>, module: Module, ops: Seq<(u32, u32)>) -> bool {
    rt == runtime_import(items_uses(module.items@, module.items@.len(), ops))
}

/// The text of one item after the blank line that separates it, and the
/// counters after it (only functions advance them). An `extern`
/// declaration emits nothing.
pub open spec fn item_ts(item: Item, file: Seq<char>, ops: Seq<(u32, u32)>, c: (usize, usize)) -> (Seq<char>, (usize, usize)) {
    match item {
        Item::Extern(_) => (Seq::empty(), c),
        Item::TypeAlias(a) => (nl() + alias_text(a), c),
        Item::Record(r) => (nl() + record_text(r), c),
        Item::Enum(e) => (nl() + enum_text(e), c),
        Item::Func(f) => {
            let x = func_ts(f, file, ops, c);
            (nl() + x.0, x.1)
        },
    }
}

/// The texts of the first `n` items, the counters threaded through them.
pub open spec fn items_ts(items: Seq<Item>, n: nat, file: Seq<char>, ops: Seq<(u32, u32)>, c: (usize, usize)) -> (Seq<char>, (usize, usize))
    decreases n,
{
    if n == 0 || n > items.len() {
        (Seq::empty(), c)
    } else {
        let p = items_ts(items, (n - 1) as nat, file, ops, c);
        let x = item_ts(items[n - 1], file, ops, p.1);
        (p.0 + x.0, x.1)
    }
}

/// What a module body generates: the runtime import `rt`, the imports, then
/// each item after a blank line, with the list operations at `ops`.
pub open spec fn module_body_text(module: Module, rt: Seq<char>, file: Seq<char>, ops: Seq<(u32, u32)>) -> Seq<char> {
    rt + imports_block(module.decl, module.imports@, rt.len() == 0) + items_ts(module.items@, module.items@.len(), file, ops, (0, 0)).0
}

#[verifier::rlimit(100)]
#[verifier::spinoff_prover]
fn emit_module_body(out: &mut Out, st: &mut EmitState, ops: &Vec<(u32, u32)>, src_file: &str, module: &Module)
    requires
        out_wf(*old(out)),
        old(out).indent == 0,
        counters(*old(st)) == (0usize, 0usize),
        !old(st).in_ensures,
    ensures
        out_wf(*final(out)),
        final(out).indent == old(out).indent,
        final(out).fixed == old(out).fixed,
        exists|rt: Seq<char>| {
            &&& runtime_block(rt, *module, ops@)
            &&& #[trigger] final(out).buf@ == old(out).buf@ + module_body_text(*module, rt, src_file@, ops@)
        },
{
    let ghost b0 = out.buf@;
    let ghost fixed0 = out.fixed@;
    let runtime = RuntimeUses::collect(module, ops);
    let mut wrote_imports = false;
    let ghost mut nm: Seq<char> = Seq::empty();
    if runtime.any() {
        let names = runtime.names();
        proof { nm = names@; }
        out.newline();
        let mut t = String::new();
        push_str(&mut t, "import { ");
        push_str(&mut t, names.as_str());
        push_str(&mut t, " } from \"@kei/runtime\";");
        out.line(t.as_str());
        wrote_imports = true;
        proof {
            lemma_repeat_indent();
            assert(out.buf@ =~= b0 + (nl() + "import { "@ + names@ + " } from \"@kei/runtime\";"@ + nl()));
        }
    }
    let ghost rt = out.buf@.subrange(b0.len() as int, out.buf@.len() as int);
    proof {
        if wrote_imports {
            assert(rt =~= nl() + "import { "@ + nm + " } from \"@kei/runtime\";"@ + nl());
        }
    }
    let ghost b1 = out.buf@;
    assert(b1 =~= b0 + rt);
    assert(rt.len() == 0 <==> !wrote_imports);
    if module.imports.len() > 0 {
        if !wrote_imports {
            out.newline();
        }
        let ghost bi0 = out.buf@;
        assert(bi0 =~= b1 + (if !wrote_imports { nl() } else { Seq::empty() }));
        let mut i: usize = 0;
        while i < module.imports.len()
            invariant
                out_wf(*out),
                out.indent == old(out).indent,
                out.indent == 0,
                out.fixed == old(out).fixed,
                i <= module.imports@.len(),
                out.buf@ == bi0 + imports_text(module.decl, module.imports@, i as nat),
            decreases module.imports@.len() - i,
        {
            emit_import(out, &module.decl, &module.imports[i]);
            proof {
                assert(out.buf@ =~= bi0 + imports_text(module.decl, module.imports@, (i + 1) as nat));
            }
            i = i + 1;
        }
    }
    let ghost b2 = out.buf@;
    assert(b2 =~= b1 + imports_block(module.decl, module.imports@, rt.len() == 0));
    proof {
        assert(items_ts(module.items@, 0, src_file@, ops@, (0, 0)) == (Seq::<char>::empty(), (0usize, 0usize)));
        assert(b2 =~= b2 + Seq::<char>::empty());
    }
    let mut i: usize = 0;
    while i < module.items.len()
        invariant
            out_wf(*out),
            out.indent == old(out).indent,
            out.indent == 0,
            out.fixed == old(out).fixed,
            !st.in_ensures,
            i <= module.items@.len(),
            out.buf@ == b2 + items_ts(module.items@, i as nat, src_file@, ops@, (0, 0)).0,
            counters(*st) == items_ts(module.items@, i as nat, src_file@, ops@, (0, 0)).1,
        decreases module.items@.len() - i,
    {
        let ghost bi = out.buf@;
        let ghost ci = counters(*st);
        match &module.items[i] {
            Item::Extern(_) => {},
            Item::TypeAlias(a) => {
                out.newline();
                emit_alias(out, a);
            },
            Item::Record(r) => {
                out.newline();
                emit_record(out, r);
            },
            Item::Enum(e) => {
                out.newline();
                emit_enum(out, e);
            },
            Item::Func(f) => {
                out.newline();
                emit_func(out, st, ops, src_file, f);
            },
        }
        proof {
            let x = item_ts(module.items@[i as int], src_file@, ops@, ci);
            assert(out.buf@ =~= bi + x.0);
            assert(out.buf@ =~= b2 + items_ts(module.items@, (i + 1) as nat, src_file@, ops@, (0, 0)).0);
        }
        i = i + 1;
    }
    proof {
        assert(out.buf@ =~= b0 + module_body_text(*module, rt, src_file@, ops@));
        if wrote_imports {
            assert(rt == nl() + "import { "@ + nm + " } from \"@kei/runtime\";"@ + nl());
        }
        assert(rt == runtime_import(runtime));
        assert(runtime_block(rt, *module, ops@));
    }
}

/// The TypeScript of one module, its source map, and the output path.
#[derive(Debug, Clone)]
pub struct EmitOutput {
    /// The generated TypeScript, ending with a `//# sourceMappingURL=` line.
    pub ts: String,
    /// The source map (v3) as JSON.
    pub map: String,
    /// The output path derived from the module declaration (e.g. `contracts/withdraw.ts`).
    pub ts_path: String,
}

/// The generated file of a module that checked clean, given the positions
/// of its list method calls: the header, the module body, and the line that
/// points at the source map. `file` (the path from the repository root)
/// names the source in the header, in every contract violation and in the
/// source map.
pub open spec fn emitted(o: EmitOutput, file: Seq<char>, source: Seq<char>, module: Module, ops: Seq<(u32, u32)>) -> bool {
    &&& o.ts_path@ == ts_path_text(file, module.decl)
    &&& exists|rt: Seq<char>, ms: Seq<Mapping>|
        #![trigger module_body_text(module, rt, file, ops), encode_from(ms, 0, 0, 0, 0, true)]
    {
        let body = header_text(file) + module_body_text(module, rt, file, ops);
        &&& runtime_block(rt, module, ops)
        &&& o.ts@ == body + source_mapping_line(last_segment(o.ts_path@))
        &&& mappings_placed(body, ms)
        &&& o.map@ == crate::sourcemap::source_map_text(last_segment(o.ts_path@), file, source,
            encode_from(ms, 0, 0, 0, 0, true))
    }
}

/// Generates the TypeScript of a module that checked clean, with the list
/// method calls at the positions `ops` (as the checker reports them).
#[verifier::rlimit(60)]
pub fn emit_with_list_ops(file: &str, source: &str, module: &Module, ops: &Vec<(u32, u32)>) -> (r: EmitOutput)
    ensures
        emitted(r, file@, source@, *module, ops@),
{
    let ts_path = ts_path_for(file, module);
    let ts_file_chars = last_segment_of(ts_path.as_str());
    let ts_file = crate::text::string_of(&ts_file_chars);
    let mut out = Out::new();
    let mut head = String::new();
    push_str(&mut head, "// Generated by kei_emit from ");
    push_str(&mut head, file);
    push_str(&mut head, ".");
    out.line(head.as_str());
    out.line("// Do not edit; regenerate with `kei build`.");
    proof {
        reveal_strlit(".\n// Do not edit; regenerate with `kei build`.\n");
        reveal_strlit("// Do not edit; regenerate with `kei build`.");
        reveal_strlit(".");
        assert(out.buf@ =~= header_text(file@));
    }
    let ghost fixed = out.buf@;
    proof {
        assert(fixed.is_prefix_of(out.buf@)) by {
            assert(out.buf@.subrange(0, fixed.len() as int) =~= fixed);
        }
    }
    out.set_fixed(Ghost(fixed));
    let mut st = EmitState { old_counter: 0, in_ensures: false, match_counter: 0 };
    let ghost before_body = out.buf@;
    emit_module_body(&mut out, &mut st, ops, file, module);
    let ghost rt = choose|rt: Seq<char>| {
        &&& runtime_block(rt, *module, ops@)
        &&& #[trigger] out.buf@ == before_body + module_body_text(*module, rt, file@, ops@)
    };
    let map = crate::sourcemap::build_map(ts_file.as_str(), file, source, out.mappings.as_slice());
    let ghost body = out.buf@;
    proof {
        lemma_out_wf_fixed(out);
        assert forall|i: int, j: int| 0 <= i < j < out.mappings@.len() implies
            pos_le((#[trigger] out.mappings@[i].gen_line, out.mappings@[i].gen_col),
                (#[trigger] out.mappings@[j].gen_line, out.mappings@[j].gen_col)) by {
            lemma_mappings_ordered(out.buf@, out.mappings@, out.marks@, i, j);
        }
        assert forall|i: int| 0 <= i < out.mappings@.len() implies exists|k: int| 0 <= k <= body.len()
            && (#[trigger] out.mappings@[i]).gen_line == pos_of(body.take(k)).0
            && out.mappings@[i].gen_col == pos_of(body.take(k)).1 by {
            let k = out.marks@[i] as int;
            assert(0 <= k <= body.len());
        }
    }
    let mut ts = out.buf;
    push_str(&mut ts, "//# sourceMappingURL=");
    push_str(&mut ts, ts_file.as_str());
    push_str(&mut ts, ".map\n");
    let r = EmitOutput { ts, map, ts_path };
    proof {
        assert(r.ts@ =~= body + source_mapping_line(last_segment(r.ts_path@)));
        assert(body == header_text(file@) + module_body_text(*module, rt, file@, ops@));
        assert(mappings_placed(body, out.mappings@));
        assert(module_body_text(*module, rt, file@, ops@) == module_body_text(*module, rt, file@, ops@));
    }
    r
}

/// Generates the TypeScript of a module that checked clean (see
/// [`emit_with_list_ops`]); the list method calls are those the checker
/// establishes.
pub fn emit_checked(file: &str, source: &str, module: &Module) -> (r: EmitOutput)
    ensures
        exists|ops: Seq<(u32, u32)>| ops.no_duplicates() && #[trigger] emitted(r, file@, source@, *module, ops),
{
    let ops = crate::check::list_op_spans(module);
    emit_with_list_ops(file, source, module, &ops)
}

/// `o` is what [`emit_with_list_ops`] generates for some module and some
/// positions of its list method calls.
pub open spec fn emitted_for_some_module(o: EmitOutput, file: Seq<char>, source: Seq<char>) -> bool {
    exists|m: Module, ops: Seq<(u32, u32)>| #[trigger] emitted(o, file, source, m, ops)
}

/// Transpiles one source file. The module must parse and check clean; else
/// the syntax diagnostics followed by the checker's are returned.
pub fn emit_module(file: &str, source: &str) -> (r: Result<EmitOutput, Vec<crate::diagnostic::Diagnostic>>)
    requires
        source@.len() < crate::lexer::max_source_len(),
    ensures
        r matches Err(d) ==> d@.len() > 0 && forall|i: int| 0 <= i < d@.len() ==> crate::diagnostic::has_fix(#[trigger] d@[i]),
        r matches Ok(o) ==> emitted_for_some_module(o, file@, source@),
{
    let parsed = crate::syntax::parse_module(source);
    let mut diags = crate::boundary::syntax_diagnostics(file, parsed.errors.as_slice());
    let mut more = crate::check::check_module(file, &parsed.module);
    let ghost d0 = diags@;
    let ghost m0 = more@;
    diags.append(&mut more);
    if diags.len() > 0 {
        proof {
            assert forall|i: int| 0 <= i < diags@.len() implies crate::diagnostic::has_fix(#[trigger] diags@[i]) by {
                if i < d0.len() {
                    assert(diags@[i] == d0[i]);
                } else {
                    assert(diags@[i] == m0[i - d0.len()]);
                }
            }
        }
        return Err(diags);
    }
    let o = emit_checked(file, source, &parsed.module);
    proof {
        let ops = choose|ops: Seq<(u32, u32)>| ops.no_duplicates() && #[trigger] emitted(o, file@, source@, parsed.module, ops);
        assert(emitted(o, file@, source@, parsed.module, ops));
        assert(emitted_for_some_module(o, file@, source@));
    }
    Ok(o)
}

} // verus!
