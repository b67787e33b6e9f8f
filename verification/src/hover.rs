//! Editor support computed from source text alone: the diagnostics of a
//! source, and the hover card of a function (its signature and contract,
//! quoted from the source).
use vstd::prelude::*;
use crate::ast::{FuncDecl, Item, Module};
use crate::boundary::{reports_syntax_error, syntax_diagnostics};
use crate::check::check_module;
use crate::checkenv::reported_in;
use crate::diagnostic::Diagnostic;
use crate::lexer::max_source_len;
use crate::notation::{path_text, push_path};
use crate::span::Span;
use crate::syntax::parse_module;
use crate::text::{lines, push_char, push_chars, push_str, split_lines};

verus! {

broadcast use vstd::string::group_string_axioms;

/// The file name given to diagnostics of an in-memory source.
pub const SYNTHETIC_FILE: &'static str = "source.kei";

/// A 0-based editor position; `character` counts Unicode scalar values.
#[derive(Debug, Clone, Copy, PartialEq, Eq, Structural)]
pub struct CursorPosition {
    pub line: u32,
    pub character: u32,
}

/// Whether the 0-based cursor lies in the 1-based, end-exclusive span.
pub open spec fn spec_span_contains(span: Span, c: CursorPosition) -> bool {
    let line = c.line + 1;
    let col = c.character + 1;
    let after_start = line > span.start.line || (line == span.start.line && col >= span.start.col);
    let before_end = line < span.end.line || (line == span.end.line && col < span.end.col);
    after_start && before_end
}

pub fn span_contains(span: Span, cursor: CursorPosition) -> (r: bool)
    ensures
        r == spec_span_contains(span, cursor),
{
    let line: u64 = cursor.line as u64 + 1;
    let col: u64 = cursor.character as u64 + 1;
    let sl = span.start.line as u64;
    let sc = span.start.col as u64;
    let el = span.end.line as u64;
    let ec = span.end.col as u64;
    let after_start = line > sl || (line == sl && col >= sc);
    let before_end = line < el || (line == el && col < ec);
    after_start && before_end
}

/// Characters `[start, end)` of a line (clamped to the line).
pub open spec fn spec_char_slice(line: Seq<char>, start: int, end: int) -> Seq<char> {
    let s = if start < line.len() { start } else { line.len() as int };
    let e = if end < line.len() { end } else { line.len() as int };
    if s < e { line.subrange(s, e) } else { Seq::empty() }
}

pub open spec fn sat1(x: u32) -> int {
    if x >= 1 { x - 1 } else { 0 }
}

/// The source text under a 1-based span (several lines keep their breaks).
pub open spec fn spec_slice_span(ls: Seq<Seq<char>>, span: Span) -> Seq<char> {
    let sl = span.start.line as int;
    let el = span.end.line as int;
    if sl == 0 || sl > ls.len() {
        Seq::empty()
    } else if sl == el {
        spec_char_slice(ls[sl - 1], sat1(span.start.col), sat1(span.end.col))
    } else {
        let first = spec_char_slice(ls[sl - 1], sat1(span.start.col), ls[sl - 1].len() as int);
        let upto = if el < ls.len() { el } else { ls.len() as int };
        let middle = middle_lines(ls, sl, upto - 1);
        let last = if 1 <= el <= ls.len() { seq!['\n'] + spec_char_slice(ls[el - 1], 0, sat1(span.end.col)) } else { Seq::empty() };
        first + middle + last
    }
}

/// `"\n" + line` for the lines with index in `[from, to)`.
pub open spec fn middle_lines(ls: Seq<Seq<char>>, from: int, to: int) -> Seq<char>
    decreases to - from,
{
    if from >= to || from < 0 || to > ls.len() {
        Seq::empty()
    } else {
        middle_lines(ls, from, to - 1) + seq!['\n'] + ls[to - 1]
    }
}

fn push_char_slice(out: &mut String, line: &Vec<char>, start: usize, end: usize)
    ensures
        final(out)@ == old(out)@ + spec_char_slice(line@, start as int, end as int),
{
    let s = if start < line.len() { start } else { line.len() };
    let e = if end < line.len() { end } else { line.len() };
    let ghost o0 = out@;
    let mut i = s;
    while i < e
        invariant
            s <= i,
            i <= e || e < s,
            e <= line@.len(),
            s < e ==> out@ == o0 + line@.subrange(s as int, i as int),
            s >= e ==> out@ == o0,
        decreases e - i,
    {
        push_char(out, line[i]);
        assert(line@.subrange(s as int, i + 1) =~= line@.subrange(s as int, i as int).push(line@[i as int]));
        i = i + 1;
    }
    assert(s < e ==> line@.subrange(s as int, i as int) =~= line@.subrange(s as int, e as int));
    assert(s >= e ==> out@ =~= o0 + Seq::<char>::empty());
}

fn push_middle_lines(out: &mut String, ls: &Vec<Vec<char>>, from: usize, to: usize)
    requires
        to <= ls@.len(),
    ensures
        final(out)@ == old(out)@ + middle_lines(ls@.map_values(|l: Vec<char>| l@), from as int, to as int),
{
    let ghost lv = ls@.map_values(|l: Vec<char>| l@);
    let ghost o1 = out@;
    if from >= to {
        assert(out@ =~= o1 + middle_lines(lv, from as int, to as int));
        return;
    }
    let mut i = from;
    assert(out@ =~= o1 + middle_lines(lv, from as int, i as int));
    while i < to
        invariant
            from <= i <= to,
            to <= ls@.len(),
            lv == ls@.map_values(|l: Vec<char>| l@),
            out@ == o1 + middle_lines(lv, from as int, i as int),
        decreases to - i,
    {
        push_char(out, '\n');
        push_chars(out, &ls[i]);
        i = i + 1;
        assert(out@ =~= o1 + middle_lines(lv, from as int, i as int));
    }
}

/// Appends the source text under `span`.
pub fn push_slice_span(out: &mut String, ls: &Vec<Vec<char>>, span: Span)
    ensures
        final(out)@ == old(out)@ + spec_slice_span(ls@.map_values(|l: Vec<char>| l@), span),
{
    let ghost lv = ls@.map_values(|l: Vec<char>| l@);
    let ghost o0 = out@;
    let sl = span.start.line as usize;
    let el = span.end.line as usize;
    let sc = span.start.col.saturating_sub(1) as usize;
    let ec = span.end.col.saturating_sub(1) as usize;
    if sl == 0 || sl > ls.len() {
        assert(out@ =~= o0 + spec_slice_span(lv, span));
        return;
    }
    if sl == el {
        push_char_slice(out, &ls[sl - 1], sc, ec);
        return;
    }
    push_char_slice(out, &ls[sl - 1], sc, ls[sl - 1].len());
    let ghost o1 = out@;
    let upto = if el < ls.len() { el } else { ls.len() };
    let stop = if upto >= 1 { upto - 1 } else { 0 };
    push_middle_lines(out, ls, sl, stop);
    assert(out@ =~= o1 + middle_lines(lv, sl as int, upto as int - 1));
    let ghost o2 = out@;
    if el >= 1 && el <= ls.len() {
        push_char(out, '\n');
        push_char_slice(out, &ls[el - 1], 0, ec);
        assert(out@ =~= o2 + (seq!['\n'] + spec_char_slice(lv[el - 1], 0, ec as int)));
    }
    assert(out@ =~= o0 + spec_slice_span(lv, span));
}

/// The source text under a 1-based span.
pub fn slice_span(source: &str, span: Span) -> (r: String)
    ensures
        r@ == spec_slice_span(lines(source@), span),
{
    let ls = split_lines(source);
    let mut out = String::new();
    push_slice_span(&mut out, &ls, span);
    assert(Seq::<char>::empty() + spec_slice_span(lines(source@), span) =~= spec_slice_span(lines(source@), span));
    out
}

/// The index of the first function item whose name lies under the cursor.
pub open spec fn func_at(items: Seq<Item>, cursor: CursorPosition) -> Option<int> {
    if exists|i: int| 0 <= i < items.len() && #[trigger] is_func_named_at(items[i], cursor) {
        Some(choose|i: int| 0 <= i < items.len() && is_func_named_at(items[i], cursor)
            && forall|j: int| 0 <= j < i ==> !is_func_named_at(items[j], cursor))
    } else {
        None
    }
}

pub open spec fn is_func_named_at(item: Item, cursor: CursorPosition) -> bool {
    match item {
        Item::Func(f) => spec_span_contains(f.name.span, cursor),
        _ => false,
    }
}

fn find_func_at(module: &Module, cursor: CursorPosition) -> (r: Option<usize>)
    ensures
        r matches Some(i) ==> i < module.items@.len() && is_func_named_at(module.items@[i as int], cursor)
            && forall|j: int| 0 <= j < i ==> !is_func_named_at(#[trigger] module.items@[j], cursor),
        r is None ==> forall|j: int| 0 <= j < module.items@.len() ==> !is_func_named_at(#[trigger] module.items@[j], cursor),
{
    let mut i: usize = 0;
    while i < module.items.len()
        invariant
            i <= module.items@.len(),
            forall|j: int| 0 <= j < i ==> !is_func_named_at(#[trigger] module.items@[j], cursor),
        decreases module.items@.len() - i,
    {
        match &module.items[i] {
            Item::Func(f) => {
                if span_contains(f.name.span, cursor) {
                    return Some(i);
                }
            },
            _ => {},
        }
        i = i + 1;
    }
    None
}

/// The signature line: `func name(p: T, ...) -> R`, types quoted from the source.
pub open spec fn header_text(ls: Seq<Seq<char>>, f: FuncDecl) -> Seq<char> {
    "func "@ + f.name.name@ + "("@ + params_text(ls, f, f.params@.len()) + ")"@
        + match f.ret {
            Some(t) => " -> "@ + spec_slice_span(ls, t.span),
            None => Seq::empty(),
        }
}

pub open spec fn params_text(ls: Seq<Seq<char>>, f: FuncDecl, n: nat) -> Seq<char>
    decreases n,
{
    if n == 0 || n > f.params@.len() {
        Seq::empty()
    } else {
        let p = f.params@[n - 1];
        let one = p.name.name@ + ": "@ + spec_slice_span(ls, p.ty.span);
        if n == 1 { one } else { params_text(ls, f, (n - 1) as nat) + ", "@ + one }
    }
}

pub open spec fn uses_text(f: FuncDecl, n: nat) -> Seq<char>
    decreases n,
{
    if n == 0 || n > f.uses@.len() {
        Seq::empty()
    } else {
        let e = path_text(f.uses@[n - 1].path@, f.uses@[n - 1].path@.len());
        if n == 1 { e } else { uses_text(f, (n - 1) as nat) + ", "@ + e }
    }
}

pub open spec fn clauses_text(ls: Seq<Seq<char>>, kw: Seq<char>, cs: Seq<crate::ast::Expr>, n: nat) -> Seq<char>
    decreases n,
{
    if n == 0 || n > cs.len() {
        Seq::empty()
    } else {
        clauses_text(ls, kw, cs, (n - 1) as nat) + "\n  "@ + kw + " "@ + spec_slice_span(ls, crate::ast::expr_span(cs[n - 1]))
    }
}

pub open spec fn uses_note() -> Seq<char> {
    "**uses** — このコードが行ってよい副作用(ケーパビリティ)。宣言外のエフェクトはコンパイルエラー。"@
}

pub open spec fn requires_note() -> Seq<char> {
    "**requires** — 呼び出し側が満たすべき事前条件(実行時アサーション)。"@
}

pub open spec fn ensures_note() -> Seq<char> {
    "**ensures** — この関数が保証する事後条件(`result` で戻り値を参照)。"@
}

/// The notes, joined by blank lines, for the clause kinds the function has.
pub open spec fn notes_text(f: FuncDecl) -> Seq<char> {
    let notes = (if f.uses@.len() > 0 { seq![uses_note()] } else { Seq::empty() })
        + (if f.requires@.len() > 0 { seq![requires_note()] } else { Seq::empty() })
        + (if f.ensures@.len() > 0 { seq![ensures_note()] } else { Seq::empty() });
    if notes.len() == 0 {
        Seq::empty()
    } else if notes.len() == 1 {
        "\n\n"@ + notes[0]
    } else if notes.len() == 2 {
        "\n\n"@ + notes[0] + "\n\n"@ + notes[1]
    } else {
        "\n\n"@ + notes[0] + "\n\n"@ + notes[1] + "\n\n"@ + notes[2]
    }
}

/// The hover card of a function: its contract-carrying signature in a
/// `kei` code block, then a note for each clause kind present.
pub open spec fn card_text(ls: Seq<Seq<char>>, f: FuncDecl) -> Seq<char> {
    let code = header_text(ls, f)
        + (if f.uses@.len() > 0 { "\n  uses "@ + uses_text(f, f.uses@.len()) } else { Seq::empty() })
        + clauses_text(ls, "requires"@, f.requires@, f.requires@.len())
        + clauses_text(ls, "ensures"@, f.ensures@, f.ensures@.len());
    "```kei\n"@ + code + "\n```"@ + notes_text(f)
}

fn push_clauses(out: &mut String, ls: &Vec<Vec<char>>, kw: &str, cs: &Vec<crate::ast::Expr>)
    ensures
        final(out)@ == old(out)@ + clauses_text(ls@.map_values(|l: Vec<char>| l@), kw@, cs@, cs@.len()),
{
    let ghost lv = ls@.map_values(|l: Vec<char>| l@);
    let ghost o0 = out@;
    let mut i: usize = 0;
    while i < cs.len()
        invariant
            i <= cs@.len(),
            lv == ls@.map_values(|l: Vec<char>| l@),
            out@ == o0 + clauses_text(lv, kw@, cs@, i as nat),
        decreases cs@.len() - i,
    {
        let ghost o1 = out@;
        push_str(out, "\n  ");
        push_str(out, kw);
        push_str(out, " ");
        push_slice_span(out, ls, cs[i].span());
        assert(out@ =~= o0 + (clauses_text(lv, kw@, cs@, i as nat) + "\n  "@ + kw@ + " "@
            + spec_slice_span(lv, crate::ast::expr_span(cs@[i as int]))));
        i = i + 1;
    }
}

fn push_header(md: &mut String, ls: &Vec<Vec<char>>, f: &FuncDecl)
    ensures
        final(md)@ == old(md)@ + header_text(ls@.map_values(|l: Vec<char>| l@), *f),
{
    let ghost lv = ls@.map_values(|l: Vec<char>| l@);
    let ghost start = md@;
    push_str(md, "func ");
    push_str(md, f.name.name.as_str());
    push_str(md, "(");
    let ghost o0 = md@;
    let mut i: usize = 0;
    assert(md@ =~= o0 + params_text(lv, *f, 0));
    while i < f.params.len()
        invariant
            i <= f.params@.len(),
            lv == ls@.map_values(|l: Vec<char>| l@),
            md@ == o0 + params_text(lv, *f, i as nat),
        decreases f.params@.len() - i,
    {
        if i > 0 {
            push_str(md, ", ");
        }
        push_str(md, f.params[i].name.name.as_str());
        push_str(md, ": ");
        push_slice_span(md, ls, f.params[i].ty.span);
        proof {
            let p = f.params@[i as int];
            let one = p.name.name@ + ": "@ + spec_slice_span(lv, p.ty.span);
            if i > 0 {
                assert(md@ =~= o0 + (params_text(lv, *f, i as nat) + ", "@ + one));
            } else {
                assert(md@ =~= o0 + one);
            }
        }
        i = i + 1;
    }
    push_str(md, ")");
    match &f.ret {
        Some(t) => {
            push_str(md, " -> ");
            push_slice_span(md, ls, t.span);
        },
        None => {},
    }
    assert(md@ =~= start + header_text(lv, *f));
}

fn push_uses_line(md: &mut String, f: &FuncDecl)
    ensures
        final(md)@ == old(md)@ + (if f.uses@.len() > 0 { "\n  uses "@ + uses_text(*f, f.uses@.len()) } else { Seq::empty() }),
{
    let ghost start = md@;
    if f.uses.len() > 0 {
        push_str(md, "\n  uses ");
        let ghost o2 = md@;
        let mut k: usize = 0;
        assert(md@ =~= o2 + uses_text(*f, 0));
        while k < f.uses.len()
            invariant
                k <= f.uses@.len(),
                md@ == o2 + uses_text(*f, k as nat),
            decreases f.uses@.len() - k,
        {
            if k > 0 {
                push_str(md, ", ");
            }
            push_path(md, &f.uses[k].path);
            proof {
                let e = path_text(f.uses@[k as int].path@, f.uses@[k as int].path@.len());
                if k > 0 {
                    assert(md@ =~= o2 + (uses_text(*f, k as nat) + ", "@ + e));
                } else {
                    assert(md@ =~= o2 + e);
                }
            }
            k = k + 1;
        }
        assert(md@ =~= start + ("\n  uses "@ + uses_text(*f, f.uses@.len())));
    } else {
        assert(md@ =~= start + Seq::<char>::empty());
    }
}

fn push_notes(md: &mut String, f: &FuncDecl)
    ensures
        final(md)@ == old(md)@ + notes_text(*f),
{
    let ghost start = md@;
    if f.uses.len() > 0 {
        push_str(md, "\n\n");
        push_str(md, "**uses** — このコードが行ってよい副作用(ケーパビリティ)。宣言外のエフェクトはコンパイルエラー。");
    }
    let ghost a = md@;
    if f.requires.len() > 0 {
        push_str(md, "\n\n");
        push_str(md, "**requires** — 呼び出し側が満たすべき事前条件(実行時アサーション)。");
    }
    let ghost b = md@;
    if f.ensures.len() > 0 {
        push_str(md, "\n\n");
        push_str(md, "**ensures** — この関数が保証する事後条件(`result` で戻り値を参照)。");
    }
    assert(md@ =~= start + notes_text(*f));
}

fn render_func_contract(ls: &Vec<Vec<char>>, f: &FuncDecl) -> (r: String)
    ensures
        r@ == card_text(ls@.map_values(|l: Vec<char>| l@), *f),
{
    let ghost lv = ls@.map_values(|l: Vec<char>| l@);
    let mut md = crate::text::owned("```kei\n");
    push_header(&mut md, ls, f);
    push_uses_line(&mut md, f);
    push_clauses(&mut md, ls, "requires", &f.requires);
    push_clauses(&mut md, ls, "ensures", &f.ensures);
    push_str(&mut md, "\n```");
    push_notes(&mut md, f);
    assert(md@ =~= card_text(lv, *f));
    md
}

/// The hover card for a parsed module: that of the first function whose name
/// is under the cursor, `None` when there is none.
pub open spec fn spec_hover(ls: Seq<Seq<char>>, m: Module, cursor: CursorPosition) -> Option<Seq<char>> {
    match func_at(m.items@, cursor) {
        Some(i) => match m.items@[i] {
            Item::Func(f) => Some(card_text(ls, f)),
            _ => None,
        },
        None => None,
    }
}

/// The hover card of `module` (parsed from `source`) at `cursor`.
pub fn hover_for_module(source: &str, module: &Module, cursor: CursorPosition) -> (r: Option<String>)
    ensures
        match (r, spec_hover(lines(source@), *module, cursor)) {
            (Some(s), Some(t)) => s@ == t,
            (None, None) => true,
            _ => false,
        },
{
    let found = find_func_at(module, cursor);
    match found {
        Some(i) => {
            proof {
                let w = i as int;
                assert(is_func_named_at(module.items@[w], cursor));
                let c = choose|k: int| 0 <= k < module.items@.len() && is_func_named_at(module.items@[k], cursor)
                    && forall|j: int| 0 <= j < k ==> !is_func_named_at(module.items@[j], cursor);
                assert(c == w) by {
                    if c < w {
                        assert(!is_func_named_at(module.items@[c], cursor));
                    } else if c > w {
                        assert(!is_func_named_at(module.items@[w], cursor));
                    }
                }
            }
            match &module.items[i] {
                Item::Func(f) => {
                    let ls = split_lines(source);
                    Some(render_func_contract(&ls, f))
                },
                _ => None,
            }
        },
        None => None,
    }
}

/// The hover card of the function whose name is under the cursor, or `None`
/// when the cursor is on no function name.
pub fn hover_markdown(source: &str, cursor: CursorPosition) -> (r: Option<String>)
    requires
        source@.len() < max_source_len(),
    ensures
        exists|m: Module| match (r, #[trigger] spec_hover(lines(source@), m, cursor)) {
            (Some(s), Some(t)) => s@ == t,
            (None, None) => true,
            _ => false,
        },
{
    let parsed = parse_module(source);
    let r = hover_for_module(source, &parsed.module, cursor);
    assert(match (r, spec_hover(lines(source@), parsed.module, cursor)) {
        (Some(s), Some(t)) => s@ == t,
        (None, None) => true,
        _ => false,
    });
    r
}

/// The diagnostics of a source: its syntax errors when it has any (a broken
/// tree is not checked further), else those of the semantic check. They
/// are placed in [`SYNTHETIC_FILE`].
pub fn compute_diagnostics(source: &str) -> (r: Vec<Diagnostic>)
    requires
        source@.len() < max_source_len(),
    ensures
        reported_in(r@, SYNTHETIC_FILE@),
{
    let parsed = parse_module(source);
    let mut diags = syntax_diagnostics(SYNTHETIC_FILE, parsed.errors.as_slice());
    if parsed.errors.len() == 0 {
        let checked = check_module(SYNTHETIC_FILE, &parsed.module);
        let mut more = checked;
        diags.append(&mut more);
    }
    diags
}

} // verus!
