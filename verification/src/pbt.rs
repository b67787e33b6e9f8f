//! Property-based tests generated from contracts. A contract holds both
//! halves of a test: `requires` constrains the inputs, `ensures` is the
//! oracle. The generator supplies inputs only, never expected values, so
//! the only way to make a test pass is to make the implementation meet its
//! contract. Only pure functions (no `uses`) with an `ensures` whose
//! parameters all have generable types are tested; a function the
//! evaluator cannot run is left out silently.
use vstd::prelude::*;
use crate::ast::{self, Item, Module};
use crate::eval::{bind_params, eval_body, eval_bool, same_value, value_text, EvalError, Value, TOP_FUEL};
use crate::notation::contract_expr_text;
use crate::span;
use crate::table::{keys_unique, table_insert};
use crate::text::{owned, push_str, str_eq};

verus! {

broadcast use vstd::string::group_string_axioms;

/// The outcome of testing one function.
#[derive(Debug)]
pub struct PropertyOutcome {
    pub func: String,
    /// Every generated input satisfying `requires` satisfied every `ensures`.
    pub passed: bool,
    /// The number of inputs that satisfied `requires` and were checked.
    pub cases_checked: usize,
    /// The smallest failing input, when there is one.
    pub counterexample: Option<CounterExample>,
}

/// A failing input and the clause it breaks.
#[derive(Debug)]
pub struct CounterExample {
    /// Parameter name and value, in parameter order.
    pub inputs: Vec<(String, Value)>,
    /// The broken clause in Kei source notation.
    pub clause: String,
    /// The span of the broken clause.
    pub clause_span: span::Span,
    /// The clause is the `requires` of a called function (the tested
    /// function throws on this input), not one of its own `ensures`.
    pub precondition: bool,
}

/// One input as prose: `name = value`.
pub open spec fn binding_text(b: (String, Value)) -> Seq<char> {
    b.0@ + " = "@ + value_text(b.1)
}

/// The first `n` inputs as prose, joined with `, `.
pub open spec fn bindings_text(bs: Seq<(String, Value)>, n: nat) -> Seq<char>
    decreases n,
{
    if n == 0 || n > bs.len() {
        Seq::empty()
    } else if n == 1 {
        binding_text(bs[0])
    } else {
        bindings_text(bs, (n - 1) as nat) + ", "@ + binding_text(bs[n - 1])
    }
}

impl CounterExample {
    /// The inputs as prose: `available = 1, step = 0`.
    pub fn inputs_text(&self) -> (r: String)
        ensures
            r@ == bindings_text(self.inputs@, self.inputs@.len()),
    {
        let mut s = String::new();
        let mut i: usize = 0;
        while i < self.inputs.len()
            invariant
                i <= self.inputs@.len(),
                s@ == bindings_text(self.inputs@, i as nat),
            decreases self.inputs@.len() - i,
        {
            let ghost before = s@;
            if i > 0 {
                push_str(&mut s, ", ");
            }
            push_str(&mut s, self.inputs[i].0.as_str());
            push_str(&mut s, " = ");
            self.inputs[i].1.push_text(&mut s);
            proof {
                if i > 0 {
                    assert(s@ =~= bindings_text(self.inputs@, i as nat) + ", "@ + binding_text(self.inputs@[i as int]));
                } else {
                    assert(s@ =~= binding_text(self.inputs@[0]));
                }
            }
            i = i + 1;
        }
        s
    }
}

/// The integers every `Int` parameter is tried with.
pub open spec fn int_candidates() -> Seq<i64> {
    seq![-100i64, -10i64, -3i64, -2i64, -1i64, 0i64, 1i64, 2i64, 3i64, 10i64, 100i64]
}

/// The most record values generated for one record type.
pub const MAX_RECORDS: usize = 64;

/// The most nested type definitions followed when generating values.
pub const MAX_TYPE_DEPTH: usize = 8;

/// Whether `t` is the built-in type `name` without type arguments.
pub open spec fn is_plain(t: ast::Type, name: Seq<char>) -> bool {
    t.path@.len() == 1 && t.args@.len() == 0 && t.path@[0].name@ == name
}

fn plain(t: &ast::Type, name: &str) -> (r: bool)
    ensures
        r == is_plain(*t, name@),
{
    t.path.len() == 1 && t.args.len() == 0 && str_eq(t.path[0].name.as_str(), name)
}

fn int_values() -> (r: Vec<Value>)
    ensures
        r@.len() == int_candidates().len(),
        forall|i: int| 0 <= i < r@.len() ==> #[trigger] r@[i] == Value::Int(int_candidates()[i]),
{
    let mut v: Vec<Value> = Vec::new();
    v.push(Value::Int(-100));
    v.push(Value::Int(-10));
    v.push(Value::Int(-3));
    v.push(Value::Int(-2));
    v.push(Value::Int(-1));
    v.push(Value::Int(0));
    v.push(Value::Int(1));
    v.push(Value::Int(2));
    v.push(Value::Int(3));
    v.push(Value::Int(10));
    v.push(Value::Int(100));
    v
}

fn dup_values(v: &Vec<Value>) -> (r: Vec<Value>)
    ensures
        r@.len() == v@.len(),
{
    let mut out: Vec<Value> = Vec::new();
    let mut i: usize = 0;
    while i < v.len()
        invariant
            i <= v@.len(),
            out@.len() == i,
        decreases v@.len() - i,
    {
        out.push(v[i].duplicate());
        i = i + 1;
    }
    out
}

/// The values a parameter of type `t` is tried with: for `Int` the eleven
/// integers of [`int_candidates`], for `Bool` both, for `String` `""`, `"a"`
/// and `"abc"`; for `List<T>` the empty list, each one-element list and the
/// list of all candidates of `T`; for a local record the combinations of
/// its field candidates (at most [`MAX_RECORDS`]); for a local alias
/// (tagged or not) the candidates of its underlying type. `None` for a type
/// with no generator.
pub fn candidate_values(t: &ast::Type, module: &Module, depth: usize) -> (r: Option<Vec<Value>>)
    ensures
        is_plain(*t, "Int"@) ==> (r matches Some(v) && v@.len() == 11
            && forall|i: int| 0 <= i < 11 ==> #[trigger] v@[i] == Value::Int(int_candidates()[i])),
        is_plain(*t, "Bool"@) ==> (r matches Some(v) && v@ == seq![Value::Bool(false), Value::Bool(true)]),
        is_plain(*t, "String"@) ==> (r matches Some(v) && v@.len() == 3),
    decreases depth, 1nat, *t,
{
    proof {
        reveal_strlit("Int");
        reveal_strlit("Bool");
        reveal_strlit("String");
        assert("Int"@.len() == 3 && "Bool"@.len() == 4 && "String"@.len() == 6);
        assert("Int"@ != "Bool"@ && "Int"@ != "String"@ && "Bool"@ != "String"@);
    }
    if t.path.len() != 1 {
        return None;
    }
    if plain(t, "Int") {
        return Some(int_values());
    }
    if plain(t, "Bool") {
        let mut v: Vec<Value> = Vec::new();
        v.push(Value::Bool(false));
        v.push(Value::Bool(true));
        return Some(v);
    }
    if plain(t, "String") {
        let mut v: Vec<Value> = Vec::new();
        v.push(Value::Str(String::new()));
        v.push(Value::Str(owned("a")));
        v.push(Value::Str(owned("abc")));
        return Some(v);
    }
    let root = t.path[0].name.as_str();
    if str_eq(root, "List") && t.args.len() == 1 {
        assert(decreases_to!(t.args@ => t.args@[0]));
        let elems = match candidate_values(&t.args[0], module, depth) {
            Some(e) => e,
            None => {
                return None;
            },
        };
        let mut lists: Vec<Value> = Vec::new();
        lists.push(Value::List(Vec::new()));
        let mut i: usize = 0;
        while i < elems.len()
            invariant
                i <= elems@.len(),
            decreases elems@.len() - i,
        {
            let mut one: Vec<Value> = Vec::new();
            one.push(elems[i].duplicate());
            lists.push(Value::List(one));
            i = i + 1;
        }
        if elems.len() >= 2 {
            lists.push(Value::List(dup_values(&elems)));
        }
        return Some(lists);
    }
    if t.args.len() != 0 || depth == 0 {
        return None;
    }
    let mut k: usize = 0;
    while k < module.items.len()
        invariant
            k <= module.items@.len(),
            depth >= 1,
            !is_plain(*t, "Int"@) && !is_plain(*t, "Bool"@) && !is_plain(*t, "String"@),
        decreases module.items@.len() - k,
    {
        match &module.items[k] {
            Item::Record(r) => {
                if str_eq(r.name.name.as_str(), root) {
                    return record_values(r, module, depth - 1);
                }
            },
            Item::TypeAlias(a) => {
                if str_eq(a.name.name.as_str(), root) {
                    return candidate_values(&a.ty, module, depth - 1);
                }
            },
            _ => {},
        }
        k = k + 1;
    }
    None
}

/// A record value with exactly the declared fields of `r`, in order.
pub open spec fn record_shaped(v: Value, r: ast::RecordDecl) -> bool {
    &&& v is Record
    &&& v->Record_0@.len() == r.fields@.len()
    &&& forall|j: int| 0 <= j < r.fields@.len() ==> (#[trigger] v->Record_0@[j]).0@ == r.fields@[j].name.name@
}

/// The record values of a record type: combinations of field candidates,
/// in field order, at most [`MAX_RECORDS`].
fn record_values(r: &ast::RecordDecl, module: &Module, depth: usize) -> (out: Option<Vec<Value>>)
    ensures
        out matches Some(vs) ==> vs@.len() <= MAX_RECORDS
            && forall|i: int| 0 <= i < vs@.len() ==> record_shaped(#[trigger] vs@[i], *r),
    decreases depth + 1, 0nat, *r,
{
    let mut domains: Vec<Vec<Value>> = Vec::new();
    let mut i: usize = 0;
    while i < r.fields.len()
        invariant
            i <= r.fields@.len(),
            domains@.len() == i,
        decreases r.fields@.len() - i,
    {
        match candidate_values(&r.fields[i].ty, module, depth) {
            Some(c) => domains.push(c),
            None => {
                return None;
            },
        }
        i = i + 1;
    }
    let rows = cartesian(&domains);
    let mut out: Vec<Value> = Vec::new();
    let mut k: usize = 0;
    while k < rows.len() && k < MAX_RECORDS
        invariant
            k <= rows@.len(),
            k <= MAX_RECORDS,
            out@.len() == k,
            domains@.len() == r.fields@.len(),
            forall|m: int| 0 <= m < rows@.len() ==> (#[trigger] rows@[m])@.len() == domains@.len(),
            forall|m: int| 0 <= m < k ==> record_shaped(#[trigger] out@[m], *r),
        decreases rows@.len() - k,
    {
        let row = &rows[k];
        let mut fields: Vec<(String, Value)> = Vec::new();
        let mut j: usize = 0;
        while j < r.fields.len() && j < row.len()
            invariant
                j <= r.fields@.len(),
                row@.len() == r.fields@.len(),
                fields@.len() == j,
                forall|m: int| 0 <= m < j ==> (#[trigger] fields@[m]).0@ == r.fields@[m].name.name@,
            decreases r.fields@.len() - j,
        {
            fields.push((r.fields[j].name.name.clone(), row[j].duplicate()));
            j = j + 1;
        }
        let v = Value::Record(fields);
        assert(record_shaped(v, *r));
        out.push(v);
        k = k + 1;
    }
    Some(out)
}

/// Every combination of one value from each domain, in order (the first
/// domain varies slowest).
pub fn cartesian(domains: &Vec<Vec<Value>>) -> (rows: Vec<Vec<Value>>)
    ensures
        forall|i: int| 0 <= i < rows@.len() ==> (#[trigger] rows@[i])@.len() == domains@.len(),
        (forall|k: int| 0 <= k < domains@.len() ==> (#[trigger] domains@[k])@.len() > 0) ==> rows@.len() > 0,
{
    let mut acc: Vec<Vec<Value>> = Vec::new();
    acc.push(Vec::new());
    let mut d: usize = 0;
    while d < domains.len()
        invariant
            d <= domains@.len(),
            forall|i: int| 0 <= i < acc@.len() ==> (#[trigger] acc@[i])@.len() == d,
            (forall|k: int| 0 <= k < d ==> (#[trigger] domains@[k])@.len() > 0) ==> acc@.len() > 0,
        decreases domains@.len() - d,
    {
        let dom = &domains[d];
        let mut next: Vec<Vec<Value>> = Vec::new();
        let mut p: usize = 0;
        while p < acc.len()
            invariant
                d < domains@.len(),
                *dom == domains@[d as int],
                p <= acc@.len(),
                forall|i: int| 0 <= i < acc@.len() ==> (#[trigger] acc@[i])@.len() == d,
                forall|i: int| 0 <= i < next@.len() ==> (#[trigger] next@[i])@.len() == d + 1,
                (p > 0 && dom@.len() > 0) ==> next@.len() > 0,
            decreases acc@.len() - p,
        {
            let mut q: usize = 0;
            while q < dom.len()
                invariant
                    d < domains@.len(),
                    *dom == domains@[d as int],
                    p < acc@.len(),
                    q <= dom@.len(),
                    forall|i: int| 0 <= i < acc@.len() ==> (#[trigger] acc@[i])@.len() == d,
                    forall|i: int| 0 <= i < next@.len() ==> (#[trigger] next@[i])@.len() == d + 1,
                    (p > 0 && dom@.len() > 0) ==> next@.len() > 0,
                    q > 0 ==> next@.len() > 0,
                decreases dom@.len() - q,
            {
                let prefix = &acc[p];
                let mut row: Vec<Value> = Vec::new();
                let mut m: usize = 0;
                while m < prefix.len()
                    invariant
                        *prefix == acc@[p as int],
                        prefix@.len() == d,
                        m <= prefix@.len(),
                        row@.len() == m,
                        forall|k: int| 0 <= k < m ==> same_value(#[trigger] row@[k], prefix@[k]),
                    decreases prefix@.len() - m,
                {
                    row.push(prefix[m].duplicate());
                    m = m + 1;
                }
                row.push(dom[q].duplicate());
                next.push(row);
                q = q + 1;
            }
            p = p + 1;
        }
        acc = next;
        d = d + 1;
    }
    acc
}

/// Sameness of values is transitive.
pub proof fn lemma_same_value_transitive(a: Value, b: Value, c: Value)
    requires
        same_value(a, b),
        same_value(b, c),
    ensures
        same_value(a, c),
    decreases a,
{
    match (a, b, c) {
        (Value::List(xs), Value::List(ys), Value::List(zs)) => {
            assert forall|i: int| 0 <= i < xs@.len() implies same_value(#[trigger] xs@[i], zs@[i]) by {
                assert(decreases_to!(a => a->List_0));
                assert(decreases_to!(a->List_0 => xs@));
                assert(decreases_to!(xs@ => xs@[i]));
                lemma_same_value_transitive(xs@[i], ys@[i], zs@[i]);
            }
        },
        (Value::Record(xs), Value::Record(ys), Value::Record(zs)) => {
            assert forall|i: int| 0 <= i < xs@.len() implies (#[trigger] xs@[i]).0@ == zs@[i].0@ && same_value(xs@[i].1, zs@[i].1) by {
                assert(decreases_to!(a => a->Record_0));
                assert(decreases_to!(a->Record_0 => xs@));
                assert(decreases_to!(xs@ => xs@[i]));
                assert(decreases_to!(xs@[i] => xs@[i].1));
                lemma_same_value_transitive(xs@[i].1, ys@[i].1, zs@[i].1);
            }
        },
        _ => {},
    }
}

/// `x`, or `u64::MAX` when it is larger.
pub open spec fn saturated(x: nat) -> int {
    if x > u64::MAX { u64::MAX as int } else { x as int }
}

/// The size of a value: the magnitude of an integer, the length of a
/// string, a list's length plus its elements' sizes, the sum of a record's
/// fields' sizes.
pub open spec fn size_of_value(v: Value) -> nat
    decreases v, 0nat,
{
    match v {
        Value::Int(n) => if n >= 0 { n as nat } else { (-n) as nat },
        Value::Bool(_) => 0,
        Value::Str(s) => s@.len(),
        Value::List(xs) => xs@.len() + sizes_of_values(xs@, xs@.len()),
        Value::Record(fs) => sizes_of_fields(fs@, fs@.len()),
    }
}

/// The sum of the sizes of the first `n` values.
pub open spec fn sizes_of_values(xs: Seq<Value>, n: nat) -> nat
    decreases xs, n,
{
    if n == 0 || n > xs.len() { 0 } else { sizes_of_values(xs, (n - 1) as nat) + size_of_value(xs[n - 1]) }
}

pub open spec fn size_of_field(f: (String, Value)) -> nat
    decreases f, 0nat,
{
    size_of_value(f.1)
}

/// The sum of the sizes of the first `n` fields' values.
pub open spec fn sizes_of_fields(fs: Seq<(String, Value)>, n: nat) -> nat
    decreases fs, n,
{
    if n == 0 || n > fs.len() { 0 } else { sizes_of_fields(fs, (n - 1) as nat) + size_of_field(fs[n - 1]) }
}

/// The size of a value, for picking the smallest counterexample: the
/// magnitude of an integer, the length of a string, a list's length plus
/// its elements' sizes, a record's fields' sizes (saturating).
pub fn value_size(v: &Value) -> (r: u64)
    ensures
        r as int == saturated(size_of_value(*v)),
    decreases v,
{
    match v {
        Value::Int(n) => {
            if *n >= 0 {
                *n as u64
            } else if *n == i64::MIN {
                0x8000_0000_0000_0000u64
            } else {
                (-*n) as u64
            }
        },
        Value::Bool(_) => 0,
        Value::Str(s) => crate::text::chars_of(s.as_str()).len() as u64,
        Value::List(xs) => {
            let mut total: u64 = xs.len() as u64;
            let mut i: usize = 0;
            while i < xs.len()
                invariant
                    *v == Value::List(*xs),
                    i <= xs@.len(),
                    total as int == saturated(xs@.len() + sizes_of_values(xs@, i as nat)),
                decreases xs@.len() - i,
            {
                assert(decreases_to!(*v => v->List_0));
                assert(decreases_to!(v->List_0 => xs@));
                assert(decreases_to!(xs@ => xs@[i as int]));
                total = total.saturating_add(value_size(&xs[i]));
                i = i + 1;
            }
            total
        },
        Value::Record(fs) => {
            let mut total: u64 = 0;
            let mut i: usize = 0;
            while i < fs.len()
                invariant
                    *v == Value::Record(*fs),
                    i <= fs@.len(),
                    total as int == saturated(sizes_of_fields(fs@, i as nat)),
                decreases fs@.len() - i,
            {
                assert(decreases_to!(*v => v->Record_0));
                assert(decreases_to!(v->Record_0 => fs@));
                assert(decreases_to!(fs@ => fs@[i as int]));
                assert(decreases_to!(fs@[i as int] => fs@[i as int].1));
                total = total.saturating_add(value_size(&fs[i].1));
                assert(size_of_field(fs@[i as int]) == size_of_value(fs@[i as int].1));
                i = i + 1;
            }
            total
        },
    }
}

/// The size of an input combination (saturating sum).
pub fn size_metric(combo: &Vec<Value>) -> (r: u64)
    ensures
        r as int == saturated(sizes_of_values(combo@, combo@.len())),
{
    let mut total: u64 = 0;
    let mut i: usize = 0;
    while i < combo.len()
        invariant
            i <= combo@.len(),
            total as int == saturated(sizes_of_values(combo@, i as nat)),
        decreases combo@.len() - i,
    {
        total = total.saturating_add(value_size(&combo[i]));
        i = i + 1;
    }
    total
}

/// Whether an item is a function that contract-based testing considers:
/// pure (no `uses`) with at least one `ensures`.
pub open spec fn testable(f: ast::FuncDecl) -> bool {
    f.uses@.len() == 0 && f.ensures@.len() > 0
}

/// A failure: the input combination, the broken clause (text and span),
/// and whether it is a called function's `requires`.
struct Failure {
    combo: Vec<Value>,
    clause: String,
    clause_span: span::Span,
    precondition: bool,
}

fn with_result(env: &Vec<(String, Value)>, result: Value) -> (r: Vec<(String, Value)>)
    requires
        keys_unique(env@),
    ensures
        keys_unique(r@),
{
    let mut out: Vec<(String, Value)> = Vec::new();
    let mut i: usize = 0;
    while i < env.len()
        invariant
            i <= env@.len(),
            keys_unique(out@),
        decreases env@.len() - i,
    {
        table_insert(&mut out, env[i].0.clone(), env[i].1.duplicate());
        i = i + 1;
    }
    table_insert(&mut out, owned("result"), result);
    out
}

/// How the `requires` of a function judge one input.
enum Admission {
    Admitted,
    Rejected,
    Unsupported,
}

fn judge_inputs(f: &ast::FuncDecl, env: &Vec<(String, Value)>, module: &Module) -> (r: Admission) {
    let mut i: usize = 0;
    while i < f.requires.len()
        invariant
            i <= f.requires@.len(),
        decreases f.requires@.len() - i,
    {
        match eval_bool(&f.requires[i], env, module, false, TOP_FUEL) {
            Ok(true) => {},
            Ok(false) => {
                return Admission::Rejected;
            },
            Err(EvalError::Unsupported) => {
                return Admission::Unsupported;
            },
            Err(_) => {
                return Admission::Rejected;
            },
        }
        i = i + 1;
    }
    Admission::Admitted
}

/// Tests one function; `None` when it is not testable or cannot be run.
pub fn run_function(f: &ast::FuncDecl, module: &Module) -> (r: Option<PropertyOutcome>)
    ensures
        r matches Some(o) ==> {
            &&& testable(*f)
            &&& o.func == f.name.name
            &&& o.cases_checked > 0
            &&& (o.passed <==> o.counterexample is None)
        },
{
    if f.uses.len() != 0 || f.ensures.len() == 0 {
        return None;
    }
    let mut domains: Vec<Vec<Value>> = Vec::new();
    let mut p: usize = 0;
    while p < f.params.len()
        invariant
            p <= f.params@.len(),
        decreases f.params@.len() - p,
    {
        match candidate_values(&f.params[p].ty, module, MAX_TYPE_DEPTH) {
            Some(c) => domains.push(c),
            None => {
                return None;
            },
        }
        p = p + 1;
    }
    let combos = cartesian(&domains);
    let mut cases_checked: usize = 0;
    let mut failures: Vec<Failure> = Vec::new();
    let mut c: usize = 0;
    while c < combos.len()
        invariant
            c <= combos@.len(),
            cases_checked <= c,
            failures@.len() > 0 ==> cases_checked > 0,
        decreases combos@.len() - c,
    {
        let combo = &combos[c];
        let env = bind_params(&f.params, combo);
        match judge_inputs(f, &env, module) {
            Admission::Rejected => {
                c = c + 1;
                continue;
            },
            Admission::Unsupported => {
                return None;
            },
            Admission::Admitted => {},
        }
        let result = match eval_body(f, combo, module, TOP_FUEL) {
            Ok(v) => v,
            Err(EvalError::Unsupported) => {
                return None;
            },
            Err(EvalError::Trap) => {
                c = c + 1;
                continue;
            },
            Err(EvalError::Violation(text, s)) => {
                failures.push(Failure { combo: dup_values(combo), clause: text, clause_span: s, precondition: true });
                cases_checked = cases_checked + 1;
                c = c + 1;
                continue;
            },
        };
        let ens_env = with_result(&env, result);
        let mut k: usize = 0;
        while k < f.ensures.len()
            invariant
                k <= f.ensures@.len(),
                cases_checked <= c,
                failures@.len() > 0 ==> cases_checked > 0 || failures@.len() >= 0,
            decreases f.ensures@.len() - k,
        {
            match eval_bool(&f.ensures[k], &ens_env, module, true, TOP_FUEL) {
                Ok(true) => {},
                Ok(false) => {
                    failures.push(Failure {
                        combo: dup_values(combo),
                        clause: contract_expr_text(&f.ensures[k]),
                        clause_span: f.ensures[k].span(),
                        precondition: false,
                    });
                },
                Err(EvalError::Unsupported) => {
                    return None;
                },
                Err(_) => {},
            }
            k = k + 1;
        }
        cases_checked = cases_checked + 1;
        c = c + 1;
    }
    if cases_checked == 0 {
        return None;
    }
    let counterexample = if failures.len() == 0 {
        None
    } else {
        let mut best: usize = 0;
        let mut best_size = size_metric(&failures[0].combo);
        let mut i: usize = 1;
        while i < failures.len()
            invariant
                best < failures@.len(),
                1 <= i,
            decreases failures@.len() - i,
        {
            let sz = size_metric(&failures[i].combo);
            if sz < best_size {
                best = i;
                best_size = sz;
            }
            i = i + 1;
        }
        let fl = &failures[best];
        let mut inputs: Vec<(String, Value)> = Vec::new();
        let mut j: usize = 0;
        while j < f.params.len() && j < fl.combo.len()
            invariant
                j <= f.params@.len(),
            decreases f.params@.len() - j,
        {
            inputs.push((f.params[j].name.name.clone(), fl.combo[j].duplicate()));
            j = j + 1;
        }
        Some(CounterExample { inputs, clause: fl.clause.clone(), clause_span: fl.clause_span, precondition: fl.precondition })
    };
    let passed = counterexample.is_none();
    Some(PropertyOutcome { func: f.name.name.clone(), passed, cases_checked, counterexample })
}

/// Whether `name` names a testable function item.
pub open spec fn names_testable(items: Seq<Item>, name: String) -> bool {
    exists|w: int| 0 <= w < items.len() && (#[trigger] items[w]) is Func && testable(items[w]->Func_0)
        && items[w]->Func_0.name.name == name
}

/// The outcomes name testable function items at the increasing positions
/// `idx`, one outcome per position.
pub open spec fn outcomes_in_item_order(items: Seq<Item>, outs: Seq<PropertyOutcome>, idx: Seq<int>) -> bool {
    &&& idx.len() == outs.len()
    &&& forall|a: int, b: int| 0 <= a < b < idx.len() ==> #[trigger] idx[a] < #[trigger] idx[b]
    &&& forall|k: int| 0 <= k < idx.len() ==> {
        &&& 0 <= #[trigger] idx[k] < items.len()
        &&& items[idx[k]] is Func
        &&& testable(items[idx[k]]->Func_0)
        &&& items[idx[k]]->Func_0.name.name == outs[k].func
    }
}

/// Tests every testable function of the module, in item order; functions
/// that are not testable, or that the evaluator cannot run, have no outcome.
pub fn run_module(module: &Module) -> (r: Vec<PropertyOutcome>)
    ensures
        forall|k: int| 0 <= k < r@.len() ==> names_testable(module.items@, #[trigger] r@[k].func),
        forall|k: int| 0 <= k < r@.len() ==> (#[trigger] r@[k]).cases_checked > 0
            && (r@[k].passed <==> r@[k].counterexample is None),
        exists|idx: Seq<int>| outcomes_in_item_order(module.items@, r@, idx),
{
    let mut out: Vec<PropertyOutcome> = Vec::new();
    let ghost mut idx: Seq<int> = Seq::empty();
    let mut i: usize = 0;
    while i < module.items.len()
        invariant
            i <= module.items@.len(),
            forall|k: int| 0 <= k < out@.len() ==> names_testable(module.items@, #[trigger] out@[k].func),
            forall|k: int| 0 <= k < out@.len() ==> (#[trigger] out@[k]).cases_checked > 0
                && (out@[k].passed <==> out@[k].counterexample is None),
            outcomes_in_item_order(module.items@, out@, idx),
            forall|k: int| 0 <= k < idx.len() ==> #[trigger] idx[k] < i,
        decreases module.items@.len() - i,
    {
        if let Item::Func(f) = &module.items[i] {
            if let Some(o) = run_function(f, module) {
                let ghost before = out@;
                out.push(o);
                proof {
                    let idx0 = idx;
                    idx = idx.push(i as int);
                    assert forall|k: int| 0 <= k < idx.len() implies {
                        &&& 0 <= #[trigger] idx[k] < module.items@.len()
                        &&& module.items@[idx[k]] is Func
                        &&& testable(module.items@[idx[k]]->Func_0)
                        &&& module.items@[idx[k]]->Func_0.name.name == out@[k].func
                    } by {
                        if k < idx0.len() {
                            assert(idx[k] == idx0[k]);
                            assert(out@[k] == before[k]);
                        }
                    }
                    assert forall|a: int, b: int| 0 <= a < b < idx.len() implies #[trigger] idx[a] < #[trigger] idx[b] by {
                        if b < idx0.len() {
                            assert(idx[a] == idx0[a] && idx[b] == idx0[b]);
                        } else {
                            assert(idx[a] == idx0[a]);
                        }
                    }
                    assert(module.items@[i as int] is Func);
                    assert forall|k: int| 0 <= k < out@.len() implies names_testable(module.items@, #[trigger] out@[k].func) by {
                        if k < before.len() {
                            assert(out@[k] == before[k]);
                        } else {
                            assert(module.items@[i as int]->Func_0.name.name == out@[k].func);
                        }
                    }
                }
            }
        }
        i = i + 1;
    }
    out
}

} // verus!
