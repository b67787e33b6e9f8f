//! The evaluator behind contract-based testing: it runs pure Kei functions
//! and contract clauses on concrete values. It covers literals, names,
//! `-`/`!`, arithmetic and comparisons, `implies`, calls of local pure
//! functions (whose `requires` must hold), `old(x)` in `ensures`, record
//! fields and literals, list literals and the list combinators. Anything
//! else is `Unsupported`; division by zero and overflow are a `Trap`.
use vstd::prelude::*;
use crate::ast::{self, BinOp, Expr, Item, Module, UnaryOp};
use crate::notation::{contract_expr_text, push_string_literal, string_literal};
use crate::span;
use crate::table::{find_key, has_key, keys_unique, spec_find, table_insert};
use crate::text::{int_text, push_i64, push_str, str_eq};

verus! {

broadcast use vstd::string::group_string_axioms;

/// A value of the evaluator.
#[derive(Debug, PartialEq, Eq)]
pub enum Value {
    Int(i64),
    Bool(bool),
    Str(String),
    List(Vec<Value>),
    /// A record: its fields in definition order.
    Record(Vec<(String, Value)>),
}

/// Two values are the same: equal scalars, or lists and records with the
/// same items in the same order.
pub open spec fn same_value(a: Value, b: Value) -> bool
    decreases a,
{
    match (a, b) {
        (Value::Int(x), Value::Int(y)) => x == y,
        (Value::Bool(x), Value::Bool(y)) => x == y,
        (Value::Str(x), Value::Str(y)) => x@ == y@,
        (Value::List(xs), Value::List(ys)) => xs@.len() == ys@.len()
            && forall|i: int| 0 <= i < xs@.len() ==> same_value(#[trigger] xs@[i], ys@[i]),
        (Value::Record(xs), Value::Record(ys)) => xs@.len() == ys@.len()
            && forall|i: int| 0 <= i < xs@.len() ==> (#[trigger] xs@[i]).0@ == ys@[i].0@ && same_value(xs@[i].1, ys@[i].1),
        _ => false,
    }
}

/// The display text of a value: numbers and booleans as written, strings
/// quoted and escaped, lists in brackets, records as `{ f: v, ... }`.
pub open spec fn value_text(v: Value) -> Seq<char>
    decreases v, 0nat,
{
    match v {
        Value::Int(n) => int_text(n as int),
        Value::Bool(b) => if b { "true"@ } else { "false"@ },
        Value::Str(x) => string_literal(x@),
        Value::List(xs) => "["@ + values_text(xs@, xs@.len()) + "]"@,
        Value::Record(fs) => "{ "@ + field_values_text(fs@, fs@.len()) + " }"@,
    }
}

/// The first `n` values, joined with `, `.
pub open spec fn values_text(xs: Seq<Value>, n: nat) -> Seq<char>
    decreases xs, n,
{
    if n == 0 || n > xs.len() {
        Seq::empty()
    } else if n == 1 {
        value_text(xs[0])
    } else {
        values_text(xs, (n - 1) as nat) + ", "@ + value_text(xs[n - 1])
    }
}

/// One field of a record value: `name: value`.
pub open spec fn field_value_text(f: (String, Value)) -> Seq<char>
    decreases f, 0nat,
{
    f.0@ + ": "@ + value_text(f.1)
}

/// The first `n` fields of a record value, joined with `, `.
pub open spec fn field_values_text(fs: Seq<(String, Value)>, n: nat) -> Seq<char>
    decreases fs, n,
{
    if n == 0 || n > fs.len() {
        Seq::empty()
    } else if n == 1 {
        field_value_text(fs[0])
    } else {
        field_values_text(fs, (n - 1) as nat) + ", "@ + field_value_text(fs[n - 1])
    }
}

impl Value {
    /// A deep copy.
    pub fn duplicate(&self) -> (r: Value)
        ensures
            same_value(r, *self),
        decreases self,
    {
        match self {
            Value::Int(n) => Value::Int(*n),
            Value::Bool(b) => Value::Bool(*b),
            Value::Str(s) => Value::Str(s.clone()),
            Value::List(xs) => {
                let mut out: Vec<Value> = Vec::new();
                let mut i: usize = 0;
                while i < xs.len()
                    invariant
                        *self == Value::List(*xs),
                        i <= xs@.len(),
                        out@.len() == i,
                        forall|k: int| 0 <= k < i ==> same_value(#[trigger] out@[k], xs@[k]),
                    decreases xs@.len() - i,
                {
                    assert(decreases_to!(*self => self->List_0));
                    assert(decreases_to!(*xs => xs@));
                    assert(decreases_to!(xs@ => xs@[i as int]));
                    out.push(xs[i].duplicate());
                    i = i + 1;
                }
                Value::List(out)
            },
            Value::Record(fs) => {
                let mut out: Vec<(String, Value)> = Vec::new();
                let mut i: usize = 0;
                while i < fs.len()
                    invariant
                        *self == Value::Record(*fs),
                        i <= fs@.len(),
                        out@.len() == i,
                        forall|k: int| 0 <= k < i ==> (#[trigger] out@[k]).0@ == fs@[k].0@ && same_value(out@[k].1, fs@[k].1),
                    decreases fs@.len() - i,
                {
                    assert(decreases_to!(*self => self->Record_0));
                    assert(decreases_to!(*fs => fs@));
                    assert(decreases_to!(fs@ => fs@[i as int]));
                    assert(decreases_to!(fs@[i as int] => fs@[i as int].1));
                    out.push((fs[i].0.clone(), fs[i].1.duplicate()));
                    i = i + 1;
                }
                Value::Record(out)
            },
        }
    }

    /// Whether two values are the same (see [`same_value`]).
    pub fn same(&self, other: &Value) -> (r: bool)
        ensures
            r == same_value(*self, *other),
        decreases self,
    {
        match (self, other) {
            (Value::Int(x), Value::Int(y)) => *x == *y,
            (Value::Bool(x), Value::Bool(y)) => *x == *y,
            (Value::Str(x), Value::Str(y)) => str_eq(x.as_str(), y.as_str()),
            (Value::List(xs), Value::List(ys)) => {
                if xs.len() != ys.len() {
                    return false;
                }
                let mut i: usize = 0;
                while i < xs.len()
                    invariant
                        *self == Value::List(*xs),
                        *other == Value::List(*ys),
                        xs@.len() == ys@.len(),
                        i <= xs@.len(),
                        forall|k: int| 0 <= k < i ==> same_value(#[trigger] xs@[k], ys@[k]),
                    decreases xs@.len() - i,
                {
                    assert(decreases_to!(*self => self->List_0));
                    assert(decreases_to!(*xs => xs@));
                    assert(decreases_to!(xs@ => xs@[i as int]));
                    if !xs[i].same(&ys[i]) {
                        return false;
                    }
                    i = i + 1;
                }
                true
            },
            (Value::Record(xs), Value::Record(ys)) => {
                if xs.len() != ys.len() {
                    return false;
                }
                let mut i: usize = 0;
                while i < xs.len()
                    invariant
                        *self == Value::Record(*xs),
                        *other == Value::Record(*ys),
                        xs@.len() == ys@.len(),
                        i <= xs@.len(),
                        forall|k: int| 0 <= k < i ==> (#[trigger] xs@[k]).0@ == ys@[k].0@ && same_value(xs@[k].1, ys@[k].1),
                    decreases xs@.len() - i,
                {
                    assert(decreases_to!(*self => self->Record_0));
                    assert(decreases_to!(*xs => xs@));
                    assert(decreases_to!(xs@ => xs@[i as int]));
                    assert(decreases_to!(xs@[i as int] => xs@[i as int].1));
                    if !str_eq(xs[i].0.as_str(), ys[i].0.as_str()) || !xs[i].1.same(&ys[i].1) {
                        return false;
                    }
                    i = i + 1;
                }
                true
            },
            _ => false,
        }
    }

    /// Appends the display text: numbers and booleans as written, strings
    /// quoted and escaped, lists in brackets, records as `{ f: v, ... }`.
    pub fn push_text(&self, s: &mut String)
        ensures
            final(s)@ == old(s)@ + value_text(*self),
        decreases self,
    {
        let ghost s0 = s@;
        match self {
            Value::Int(n) => push_i64(s, *n),
            Value::Bool(b) => push_str(s, if *b { "true" } else { "false" }),
            Value::Str(x) => push_string_literal(s, x.as_str()),
            Value::List(xs) => {
                push_str(s, "[");
                let mut i: usize = 0;
                while i < xs.len()
                    invariant
                        *self == Value::List(*xs),
                        i <= xs@.len(),
                        s@ == s0 + "["@ + values_text(xs@, i as nat),
                    decreases xs@.len() - i,
                {
                    if i > 0 {
                        push_str(s, ", ");
                    }
                    assert(decreases_to!(*self => self->List_0));
                    assert(decreases_to!(*xs => xs@));
                    assert(decreases_to!(xs@ => xs@[i as int]));
                    xs[i].push_text(s);
                    proof {
                        if i > 0 {
                            assert(s@ =~= s0 + "["@ + (values_text(xs@, i as nat) + ", "@ + value_text(xs@[i as int])));
                        } else {
                            assert(s@ =~= s0 + "["@ + value_text(xs@[0]));
                        }
                    }
                    i = i + 1;
                }
                push_str(s, "]");
                assert(s@ =~= s0 + value_text(*self));
            },
            Value::Record(fs) => {
                push_str(s, "{ ");
                let mut i: usize = 0;
                while i < fs.len()
                    invariant
                        *self == Value::Record(*fs),
                        i <= fs@.len(),
                        s@ == s0 + "{ "@ + field_values_text(fs@, i as nat),
                    decreases fs@.len() - i,
                {
                    let ghost before = s@;
                    if i > 0 {
                        push_str(s, ", ");
                    }
                    let ghost mid = s@;
                    push_str(s, fs[i].0.as_str());
                    push_str(s, ": ");
                    assert(decreases_to!(*self => self->Record_0));
                    assert(decreases_to!(*fs => fs@));
                    assert(decreases_to!(fs@ => fs@[i as int]));
                    assert(decreases_to!(fs@[i as int] => fs@[i as int].1));
                    fs[i].1.push_text(s);
                    proof {
                        assert(s@ =~= mid + field_value_text(fs@[i as int]));
                        if i > 0 {
                            assert(s@ =~= s0 + "{ "@ + (field_values_text(fs@, i as nat) + ", "@ + field_value_text(fs@[i as int])));
                        } else {
                            assert(s@ =~= s0 + "{ "@ + field_value_text(fs@[0]));
                        }
                    }
                    i = i + 1;
                }
                push_str(s, " }");
                assert(s@ =~= s0 + value_text(*self));
            },
        }
    }

    /// The display text (see [`Value::push_text`]).
    pub fn text(&self) -> (r: String)
        ensures
            r@ == value_text(*self),
    {
        let mut s = String::new();
        self.push_text(&mut s);
        s
    }
}

/// Why evaluation stopped.
pub enum EvalError {
    /// A construct the evaluator does not cover.
    Unsupported,
    /// A run-time failure (division by zero, overflow): the case is dropped.
    Trap,
    /// A called function's `requires` does not hold: the clause's text and span.
    Violation(String, span::Span),
}

/// The fuel of a top-level evaluation: it allows 64 nested calls.
pub const TOP_FUEL: usize = 65;

/// Whether an item is a function of that name.
pub open spec fn is_func_named(item: Item, name: Seq<char>) -> bool {
    item matches Item::Func(f) && f.name.name@ == name
}

/// The index of the last function named `name` among the first `n` items.
pub open spec fn last_func_index(items: Seq<Item>, name: Seq<char>, n: nat) -> Option<int>
    decreases n,
{
    if n == 0 {
        None
    } else if is_func_named(items[n - 1], name) {
        Some(n - 1)
    } else {
        last_func_index(items, name, (n - 1) as nat)
    }
}

/// The function a name calls: the last function item of that name.
pub fn find_func(module: &Module, name: &str) -> (r: Option<usize>)
    ensures
        r matches Some(i) ==> i < module.items@.len() && module.items@[i as int] is Func,
        match r {
            Some(i) => last_func_index(module.items@, name@, module.items@.len()) == Some(i as int),
            None => last_func_index(module.items@, name@, module.items@.len()) is None,
        },
{
    let mut i = module.items.len();
    while i > 0
        invariant
            i <= module.items@.len(),
            last_func_index(module.items@, name@, module.items@.len()) == last_func_index(module.items@, name@, i as nat),
        decreases i,
    {
        if let Item::Func(f) = &module.items[i - 1] {
            if str_eq(f.name.name.as_str(), name) {
                return Some(i - 1);
            }
        }
        i = i - 1;
    }
    None
}

/// An environment lookup.
pub fn lookup(env: &Vec<(String, Value)>, name: &str) -> (r: Option<Value>)
    ensures
        r is Some <==> has_key(env@, name@),
        r matches Some(v) ==> same_value(v, env@[spec_find(env@, name@)->0].1),
{
    match find_key(env, name) {
        Some(i) => Some(env[i].1.duplicate()),
        None => None,
    }
}

/// The environment binding the parameters to the arguments, in order (a
/// later parameter of the same name wins; missing arguments leave the
/// parameter unbound).
pub fn bind_params(params: &Vec<ast::Param>, args: &Vec<Value>) -> (env: Vec<(String, Value)>)
    ensures
        keys_unique(env@),
{
    let mut env: Vec<(String, Value)> = Vec::new();
    let mut i: usize = 0;
    while i < params.len() && i < args.len()
        invariant
            keys_unique(env@),
        decreases params@.len() - i,
    {
        table_insert(&mut env, params[i].name.name.clone(), args[i].duplicate());
        i = i + 1;
    }
    env
}

/// Evaluates a Boolean clause.
pub fn eval_bool(e: &Expr, env: &Vec<(String, Value)>, module: &Module, in_ensures: bool, fuel: usize) -> (r: Result<bool, EvalError>)
    decreases fuel, 1nat, *e,
{
    match eval_expr(e, env, module, in_ensures, fuel) {
        Ok(Value::Bool(b)) => Ok(b),
        Ok(_) => Err(EvalError::Unsupported),
        Err(x) => Err(x),
    }
}

/// Calls function item `fi` (a function of `module`) on `args`: its
/// `requires` must hold (else `Violation`), then its body runs.
pub fn call_func(module: &Module, fi: usize, args: &Vec<Value>, fuel: usize) -> (r: Result<Value, EvalError>)
    requires
        fi < module.items@.len(),
    ensures
        !(module.items@[fi as int] is Func) || fuel == 0 ==> r == Err::<Value, EvalError>(EvalError::Unsupported),
    decreases fuel, 3nat, module.items@[fi as int],
{
    let Item::Func(f) = &module.items[fi] else {
        return Err(EvalError::Unsupported);
    };
    if fuel == 0 {
        return Err(EvalError::Unsupported);
    }
    let env = bind_params(&f.params, args);
    let mut i: usize = 0;
    while i < f.requires.len()
        invariant
            fuel >= 1,
            module.items@[fi as int] is Func,
            module.items@[fi as int]->Func_0 == *f,
        decreases f.requires@.len() - i,
    {
        match eval_bool(&f.requires[i], &env, module, false, fuel) {
            Ok(true) => {},
            Ok(false) => {
                return Err(EvalError::Violation(contract_expr_text(&f.requires[i]), f.requires[i].span()));
            },
            Err(x) => {
                return Err(x);
            },
        }
        i = i + 1;
    }
    eval_body(f, args, module, fuel)
}

/// Runs the body of `f` on `args` (no `requires` check).
pub fn eval_body(f: &ast::FuncDecl, args: &Vec<Value>, module: &Module, fuel: usize) -> (r: Result<Value, EvalError>)
    decreases fuel, 2nat, f.body,
{
    let env = bind_params(&f.params, args);
    match eval_block(&f.body, env, module, fuel) {
        Ok(Some(v)) => Ok(v),
        Ok(None) => Err(EvalError::Unsupported),
        Err(x) => Err(x),
    }
}

/// Runs a block: `Some` with the value of the `return` it reaches, `None`
/// when it falls through. `let ... else fail` and expression statements are
/// not covered.
fn eval_block(b: &ast::Block, env0: Vec<(String, Value)>, module: &Module, fuel: usize) -> (r: Result<Option<Value>, EvalError>)
    requires
        keys_unique(env0@),
    ensures
        r matches Ok(Some(_)) ==> exists|i: int| 0 <= i < b.stmts@.len() && (#[trigger] b.stmts@[i] is Return || b.stmts@[i] is If),
    decreases fuel, 1nat, *b,
{
    let mut env = env0;
    let mut i: usize = 0;
    while i < b.stmts.len()
        invariant
            keys_unique(env@),
            i <= b.stmts@.len(),
        decreases b.stmts@.len() - i,
    {
        assert(decreases_to!(b.stmts@ => b.stmts@[i as int]));
        match eval_stmt(&b.stmts[i], &mut env, module, fuel) {
            Ok(Some(v)) => {
                return Ok(Some(v));
            },
            Ok(None) => {},
            Err(x) => {
                return Err(x);
            },
        }
        i = i + 1;
    }
    Ok(None)
}

/// Runs one statement: `Some` when it returns.
fn eval_stmt(s: &ast::Stmt, env: &mut Vec<(String, Value)>, module: &Module, fuel: usize) -> (r: Result<Option<Value>, EvalError>)
    requires
        keys_unique(old(env)@),
    ensures
        keys_unique(final(env)@),
        s matches ast::Stmt::Let(l) && l.else_fail is Some ==> r == Err::<Option<Value>, EvalError>(EvalError::Unsupported),
        s matches ast::Stmt::Let(l) ==> (r is Ok ==> r == Ok::<Option<Value>, EvalError>(None) && has_key(final(env)@, l.name.name@)),
        s matches ast::Stmt::Return(ret) && ret.value is None ==> r == Err::<Option<Value>, EvalError>(EvalError::Unsupported),
        *s is Expr ==> r == Err::<Option<Value>, EvalError>(EvalError::Unsupported),
        r matches Ok(Some(_)) ==> *s is Return || *s is If,
    decreases fuel, 1nat, *s,
{
    match s {
        ast::Stmt::Let(l) => {
            if l.else_fail.is_some() {
                return Err(EvalError::Unsupported);
            }
            match eval_expr(&l.value, env, module, false, fuel) {
                Ok(v) => {
                    table_insert(env, l.name.name.clone(), v);
                    Ok(None)
                },
                Err(x) => Err(x),
            }
        },
        ast::Stmt::Return(r) => match &r.value {
            None => Err(EvalError::Unsupported),
            Some(v) => match eval_expr(v, env, module, false, fuel) {
                Ok(x) => Ok(Some(x)),
                Err(x) => Err(x),
            },
        },
        ast::Stmt::If(i) => eval_if(i, env, module, fuel),
        ast::Stmt::Expr(_) => Err(EvalError::Unsupported),
    }
}

fn copy_env(env: &Vec<(String, Value)>) -> (r: Vec<(String, Value)>)
    requires
        keys_unique(env@),
    ensures
        keys_unique(r@),
{
    let mut out: Vec<(String, Value)> = Vec::new();
    let mut i: usize = 0;
    while i < env.len()
        invariant
            i <= env@.len(),
            keys_unique(out@),
        decreases env@.len() - i,
    {
        table_insert(&mut out, env[i].0.clone(), env[i].1.duplicate());
        i = i + 1;
    }
    out
}

/// `if`: `Some` when a branch reaches `return`.
fn eval_if(s: &ast::IfStmt, env: &Vec<(String, Value)>, module: &Module, fuel: usize) -> (r: Result<Option<Value>, EvalError>)
    requires
        keys_unique(env@),
    decreases fuel, 1nat, *s,
{
    let cond = match eval_expr(&s.cond, env, module, false, fuel) {
        Ok(Value::Bool(b)) => b,
        Ok(_) => {
            return Err(EvalError::Unsupported);
        },
        Err(x) => {
            return Err(x);
        },
    };
    if cond {
        return eval_block(&s.then_block, copy_env(env), module, fuel);
    }
    match &s.else_branch {
        Some(ast::ElseBranch::Block(b)) => eval_block(b, copy_env(env), module, fuel),
        Some(ast::ElseBranch::If(nested)) => eval_if(nested, env, module, fuel),
        None => Ok(None),
    }
}

fn int_op(r: Option<i64>) -> (v: Result<Value, EvalError>)
    ensures
        v == (match r {
            Some(n) => Ok(Value::Int(n)),
            None => Err::<Value, EvalError>(EvalError::Trap),
        }),
{
    match r {
        Some(n) => Ok(Value::Int(n)),
        None => Err(EvalError::Trap),
    }
}

/// An integer result: the value when it fits in an `i64`, else a trap.
pub open spec fn int_outcome(x: int) -> Result<Value, EvalError> {
    if i64::MIN <= x <= i64::MAX { Ok(Value::Int(x as i64)) } else { Err(EvalError::Trap) }
}

/// The quotient of Rust's integer division (rounding toward zero).
pub open spec fn trunc_div(a: int, b: int) -> int {
    if a >= 0 && b > 0 {
        a / b
    } else if a < 0 && b < 0 {
        (-a) / (-b)
    } else if a < 0 {
        -((-a) / b)
    } else {
        -(a / (-b))
    }
}

/// What a binary operator gives on two values: checked integer arithmetic
/// (overflow and division by zero trap), integer comparisons, `implies` on
/// Booleans, and `==` / `!=` on any two values (see [`same_value`]).
pub open spec fn binary_value(op: BinOp, l: Value, r: Value) -> Result<Value, EvalError> {
    match (op, l, r) {
        (BinOp::Add, Value::Int(a), Value::Int(b)) => int_outcome(a + b),
        (BinOp::Sub, Value::Int(a), Value::Int(b)) => int_outcome(a - b),
        (BinOp::Mul, Value::Int(a), Value::Int(b)) => int_outcome(a * b),
        (BinOp::Div, Value::Int(a), Value::Int(b)) => if b == 0 { Err(EvalError::Trap) } else { int_outcome(trunc_div(a as int, b as int)) },
        (BinOp::Eq, _, _) => Ok(Value::Bool(same_value(l, r))),
        (BinOp::Ne, _, _) => Ok(Value::Bool(!same_value(l, r))),
        (BinOp::Lt, Value::Int(a), Value::Int(b)) => Ok(Value::Bool(a < b)),
        (BinOp::Gt, Value::Int(a), Value::Int(b)) => Ok(Value::Bool(a > b)),
        (BinOp::Le, Value::Int(a), Value::Int(b)) => Ok(Value::Bool(a <= b)),
        (BinOp::Ge, Value::Int(a), Value::Int(b)) => Ok(Value::Bool(a >= b)),
        (BinOp::Implies, Value::Bool(a), Value::Bool(b)) => Ok(Value::Bool(!a || b)),
        _ => Err(EvalError::Unsupported),
    }
}

/// A binary operator on two values. Equality compares any two values.
pub fn eval_binary(op: BinOp, l: Value, r: Value) -> (v: Result<Value, EvalError>)
    ensures
        v == binary_value(op, l, r),
{
    match (op, &l, &r) {
        (BinOp::Add, Value::Int(a), Value::Int(b)) => int_op(a.checked_add(*b)),
        (BinOp::Sub, Value::Int(a), Value::Int(b)) => int_op(a.checked_sub(*b)),
        (BinOp::Mul, Value::Int(a), Value::Int(b)) => int_op(a.checked_mul(*b)),
        (BinOp::Div, Value::Int(a), Value::Int(b)) => if *b == 0 { Err(EvalError::Trap) } else { int_op(a.checked_div(*b)) },
        (BinOp::Eq, _, _) => Ok(Value::Bool(l.same(&r))),
        (BinOp::Ne, _, _) => Ok(Value::Bool(!l.same(&r))),
        (BinOp::Lt, Value::Int(a), Value::Int(b)) => Ok(Value::Bool(*a < *b)),
        (BinOp::Gt, Value::Int(a), Value::Int(b)) => Ok(Value::Bool(*a > *b)),
        (BinOp::Le, Value::Int(a), Value::Int(b)) => Ok(Value::Bool(*a <= *b)),
        (BinOp::Ge, Value::Int(a), Value::Int(b)) => Ok(Value::Bool(*a >= *b)),
        (BinOp::Implies, Value::Bool(a), Value::Bool(b)) => Ok(Value::Bool(!*a || *b)),
        _ => Err(EvalError::Unsupported),
    }
}

/// On two integers the evaluator's operators are those of the integers:
/// `a < b` is true exactly when `a` is strictly below `b` (so `n < n` is
/// false), and `<=`, `>`, `>=`, `==`, `!=` likewise; `a < b` is `b > a` and
/// the negation of `a >= b`. `+`, `-` and `*` give the exact sum, difference
/// and product when it fits in 64 bits and trap otherwise, and `/` traps on a
/// zero divisor and otherwise, for a non-negative dividend and a positive
/// divisor, gives the floor quotient.
pub proof fn law_integer_operators(a: i64, b: i64)
    ensures
        binary_value(BinOp::Lt, Value::Int(a), Value::Int(b)) == Ok::<Value, EvalError>(Value::Bool(a < b)),
        binary_value(BinOp::Le, Value::Int(a), Value::Int(b)) == Ok::<Value, EvalError>(Value::Bool(a <= b)),
        binary_value(BinOp::Gt, Value::Int(a), Value::Int(b)) == Ok::<Value, EvalError>(Value::Bool(a > b)),
        binary_value(BinOp::Ge, Value::Int(a), Value::Int(b)) == Ok::<Value, EvalError>(Value::Bool(a >= b)),
        binary_value(BinOp::Eq, Value::Int(a), Value::Int(b)) == Ok::<Value, EvalError>(Value::Bool(a == b)),
        binary_value(BinOp::Ne, Value::Int(a), Value::Int(b)) == Ok::<Value, EvalError>(Value::Bool(a != b)),
        binary_value(BinOp::Lt, Value::Int(a), Value::Int(a)) == Ok::<Value, EvalError>(Value::Bool(false)),
        binary_value(BinOp::Le, Value::Int(a), Value::Int(a)) == Ok::<Value, EvalError>(Value::Bool(true)),
        binary_value(BinOp::Lt, Value::Int(a), Value::Int(b)) == binary_value(BinOp::Gt, Value::Int(b), Value::Int(a)),
        binary_value(BinOp::Le, Value::Int(a), Value::Int(b)) == binary_value(BinOp::Ge, Value::Int(b), Value::Int(a)),
        (binary_value(BinOp::Lt, Value::Int(a), Value::Int(b)) == Ok::<Value, EvalError>(Value::Bool(true)))
            <==> (binary_value(BinOp::Ge, Value::Int(a), Value::Int(b)) == Ok::<Value, EvalError>(Value::Bool(false))),
        i64::MIN <= a + b <= i64::MAX ==> binary_value(BinOp::Add, Value::Int(a), Value::Int(b)) == Ok::<Value, EvalError>(Value::Int((a + b) as i64)),
        !(i64::MIN <= a + b <= i64::MAX) ==> binary_value(BinOp::Add, Value::Int(a), Value::Int(b)) == Err::<Value, EvalError>(EvalError::Trap),
        i64::MIN <= a - b <= i64::MAX ==> binary_value(BinOp::Sub, Value::Int(a), Value::Int(b)) == Ok::<Value, EvalError>(Value::Int((a - b) as i64)),
        !(i64::MIN <= a - b <= i64::MAX) ==> binary_value(BinOp::Sub, Value::Int(a), Value::Int(b)) == Err::<Value, EvalError>(EvalError::Trap),
        i64::MIN <= a * b <= i64::MAX ==> binary_value(BinOp::Mul, Value::Int(a), Value::Int(b)) == Ok::<Value, EvalError>(Value::Int((a * b) as i64)),
        !(i64::MIN <= a * b <= i64::MAX) ==> binary_value(BinOp::Mul, Value::Int(a), Value::Int(b)) == Err::<Value, EvalError>(EvalError::Trap),
        binary_value(BinOp::Div, Value::Int(a), Value::Int(0)) == Err::<Value, EvalError>(EvalError::Trap),
        a >= 0 && b > 0 ==> binary_value(BinOp::Div, Value::Int(a), Value::Int(b)) == Ok::<Value, EvalError>(Value::Int((a / b) as i64)),
{
    if a >= 0 && b > 0 {
        assert(0 <= a / b <= a) by (nonlinear_arith)
            requires a >= 0, b > 0;
    }
}

/// Integer division rounds toward zero, as Rust's does: for a non-zero
/// divisor, when the quotient fits it is the `q` with `a == q * b + r`, where
/// the remainder `r` is smaller than the divisor in magnitude and is zero or
/// has the sign of the dividend.
pub proof fn law_division_truncates(a: i64, b: i64)
    requires
        b != 0,
        !(a == i64::MIN && b == -1),
    ensures
        binary_value(BinOp::Div, Value::Int(a), Value::Int(b)) matches Ok(Value::Int(q)) && ({
            let r = a - q * b;
            &&& -(b as int) < r < b as int || (b as int) < r < -(b as int)
            &&& r == 0 || (r > 0) == (a >= 0)
        }),
{
    let ai = a as int;
    let bi = b as int;
    let q = trunc_div(ai, bi);
    let big: int = 0x8000_0000_0000_0000;
    assert(-big <= ai < big);
    if ai >= 0 && bi > 0 {
        vstd::arithmetic::div_mod::lemma_fundamental_div_mod(ai, bi);
        vstd::arithmetic::div_mod::lemma_mod_pos_bound(ai, bi);
        assert(q == ai / bi);
        assert(0 <= q <= ai) by (nonlinear_arith) requires q == ai / bi, ai >= 0, bi > 0;
        assert(ai - q * bi == ai % bi) by (nonlinear_arith)
            requires ai == bi * (ai / bi) + ai % bi, q == ai / bi;
    } else if ai < 0 && bi < 0 {
        let m = -ai;
        let d = -bi;
        vstd::arithmetic::div_mod::lemma_fundamental_div_mod(m, d);
        vstd::arithmetic::div_mod::lemma_mod_pos_bound(m, d);
        assert(q == m / d);
        assert(0 <= q <= m) by (nonlinear_arith) requires q == m / d, m > 0, d > 0;
        assert(q * d <= m) by (nonlinear_arith) requires m == d * q + m % d, m % d >= 0;
        if d == 1 {
            assert(b == -1);
            assert(a != i64::MIN);
            assert(ai != -big);
            assert(m < big);
        } else {
            assert(q * 2 <= q * d) by (nonlinear_arith) requires d >= 2, q >= 0;
        }
        assert(ai - q * bi == -(m % d)) by (nonlinear_arith)
            requires m == d * q + m % d, m == -ai, d == -bi;
    } else if ai < 0 {
        let m = -ai;
        vstd::arithmetic::div_mod::lemma_fundamental_div_mod(m, bi);
        vstd::arithmetic::div_mod::lemma_mod_pos_bound(m, bi);
        assert(q == -(m / bi));
        assert(0 <= m / bi <= m) by (nonlinear_arith) requires m > 0, bi > 0;
        assert(ai - q * bi == -(m % bi)) by (nonlinear_arith)
            requires m == bi * (m / bi) + m % bi, q == -(m / bi), m == -ai;
    } else {
        let d = -bi;
        vstd::arithmetic::div_mod::lemma_fundamental_div_mod(ai, d);
        vstd::arithmetic::div_mod::lemma_mod_pos_bound(ai, d);
        assert(q == -(ai / d));
        assert(0 <= ai / d <= ai) by (nonlinear_arith) requires ai >= 0, d > 0;
        assert(ai - q * bi == ai % d) by (nonlinear_arith)
            requires ai == d * (ai / d) + ai % d, q == -(ai / d), d == -bi;
    }
    assert(i64::MIN <= q <= i64::MAX);
    assert(binary_value(BinOp::Div, Value::Int(a), Value::Int(b)) == Ok::<Value, EvalError>(Value::Int(q as i64)));
}

/// Every value is the same as itself.
pub proof fn lemma_same_value_reflexive(a: Value)
    ensures
        same_value(a, a),
    decreases a,
{
    match a {
        Value::List(xs) => {
            assert forall|i: int| 0 <= i < xs@.len() implies same_value(#[trigger] xs@[i], xs@[i]) by {
                assert(decreases_to!(a => a->List_0));
                assert(decreases_to!(a->List_0 => xs@));
                assert(decreases_to!(xs@ => xs@[i]));
                lemma_same_value_reflexive(xs@[i]);
            }
        },
        Value::Record(xs) => {
            assert forall|i: int| 0 <= i < xs@.len() implies (#[trigger] xs@[i]).0@ == xs@[i].0@ && same_value(xs@[i].1, xs@[i].1) by {
                assert(decreases_to!(a => a->Record_0));
                assert(decreases_to!(a->Record_0 => xs@));
                assert(decreases_to!(xs@ => xs@[i]));
                assert(decreases_to!(xs@[i] => xs@[i].1));
                lemma_same_value_reflexive(xs@[i].1);
            }
        },
        _ => {},
    }
}

/// `==` and `!=` answer on any two values, always oppositely; every value
/// equals itself, and values of different kinds (an integer and a string,
/// say) are never equal.
pub proof fn law_equality(a: Value, b: Value)
    ensures
        binary_value(BinOp::Eq, a, a) == Ok::<Value, EvalError>(Value::Bool(true)),
        binary_value(BinOp::Ne, a, a) == Ok::<Value, EvalError>(Value::Bool(false)),
        binary_value(BinOp::Eq, a, b) matches Ok(Value::Bool(x))
            && binary_value(BinOp::Ne, a, b) == Ok::<Value, EvalError>(Value::Bool(!x)),
        a is Int && !(b is Int) ==> binary_value(BinOp::Eq, a, b) == Ok::<Value, EvalError>(Value::Bool(false)),
        a is Str && !(b is Str) ==> binary_value(BinOp::Eq, a, b) == Ok::<Value, EvalError>(Value::Bool(false)),
{
    lemma_same_value_reflexive(a);
}

/// `implies` on two Booleans is false exactly when the premise holds and the
/// conclusion does not.
pub proof fn law_implies(p: bool, q: bool)
    ensures
        binary_value(BinOp::Implies, Value::Bool(p), Value::Bool(q)) == Ok::<Value, EvalError>(Value::Bool(!(p && !q))),
{
}

/// Evaluates the arguments in order.
fn eval_args(args: &Vec<Expr>, env: &Vec<(String, Value)>, module: &Module, in_ensures: bool, fuel: usize) -> (r: Result<Vec<Value>, EvalError>)
    ensures
        r matches Ok(vs) ==> vs@.len() == args@.len(),
    decreases fuel, 0nat, args@,
{
    let mut out: Vec<Value> = Vec::new();
    let mut i: usize = 0;
    while i < args.len()
        invariant
            i <= args@.len(),
            out@.len() == i,
        decreases args@.len() - i,
    {
        assert(decreases_to!(args@ => args@[i as int]));
        match eval_expr(&args[i], env, module, in_ensures, fuel) {
            Ok(v) => out.push(v),
            Err(x) => {
                return Err(x);
            },
        }
        i = i + 1;
    }
    Ok(out)
}

/// The function a combinator argument names when it is a name, the last
/// function of that name is local and it declares no effects.
pub open spec fn pure_func_of(arg: Expr, items: Seq<Item>) -> Option<int> {
    match arg {
        Expr::Name { name, .. } => match last_func_index(items, name@, items.len()) {
            Some(i) => if items[i] matches Item::Func(f) && f.uses@.len() == 0 { Some(i) } else { None },
            None => None,
        },
        _ => None,
    }
}

/// The local pure function a combinator argument names.
fn named_pure_func(arg: &Expr, module: &Module) -> (r: Option<usize>)
    ensures
        r matches Some(i) ==> i < module.items@.len(),
        match r {
            Some(i) => pure_func_of(*arg, module.items@) == Some(i as int),
            None => pure_func_of(*arg, module.items@) is None,
        },
{
    match arg {
        Expr::Name { name, .. } => match find_func(module, name.as_str()) {
            Some(i) => {
                if let Item::Func(f) = &module.items[i] {
                    if f.uses.len() == 0 {
                        return Some(i);
                    }
                }
                None
            },
            None => None,
        },
        _ => None,
    }
}

/// A list combinator call on `xs`.
fn eval_list_method(xs: &Vec<Value>, method: &str, args: &Vec<Expr>, env: &Vec<(String, Value)>, module: &Module, in_ensures: bool, fuel: usize)
    -> (r: Result<Value, EvalError>)
    ensures
        fuel == 0 ==> r == Err::<Value, EvalError>(EvalError::Unsupported),
        fuel > 0 && method@ == "isEmpty"@ && args@.len() == 0 ==> r == Ok::<Value, EvalError>(Value::Bool(xs@.len() == 0)),
    decreases fuel, 0nat, args@,
{
    if fuel == 0 {
        return Err(EvalError::Unsupported);
    }
    if str_eq(method, "isEmpty") && args.len() == 0 {
        return Ok(Value::Bool(xs.len() == 0));
    }
    if (str_eq(method, "all") || str_eq(method, "any") || str_eq(method, "map") || str_eq(method, "filter")) && args.len() == 1 {
        let Some(fi) = named_pure_func(&args[0], module) else {
            return Err(EvalError::Unsupported);
        };
        let all = str_eq(method, "all");
        let any = str_eq(method, "any");
        let map = str_eq(method, "map");
        let mut out: Vec<Value> = Vec::new();
        let mut i: usize = 0;
        while i < xs.len()
            invariant
                fuel >= 1,
                args@.len() == 1,
                fi < module.items@.len(),
            decreases xs@.len() - i,
        {
            let mut one: Vec<Value> = Vec::new();
            one.push(xs[i].duplicate());
            let v = match call_func(module, fi, &one, fuel - 1) {
                Ok(v) => v,
                Err(x) => {
                    return Err(x);
                },
            };
            if map {
                out.push(v);
            } else {
                let b = match v {
                    Value::Bool(b) => b,
                    _ => {
                        return Err(EvalError::Unsupported);
                    },
                };
                if all && !b {
                    return Ok(Value::Bool(false));
                }
                if any && b {
                    return Ok(Value::Bool(true));
                }
                if !all && !any && b {
                    out.push(xs[i].duplicate());
                }
            }
            i = i + 1;
        }
        if all {
            return Ok(Value::Bool(true));
        }
        if any {
            return Ok(Value::Bool(false));
        }
        return Ok(Value::List(out));
    }
    if str_eq(method, "fold") && args.len() == 2 {
        assert(decreases_to!(args@ => args@[0]));
        let mut acc = match eval_expr(&args[0], env, module, in_ensures, fuel) {
            Ok(v) => v,
            Err(x) => {
                return Err(x);
            },
        };
        let Some(fi) = named_pure_func(&args[1], module) else {
            return Err(EvalError::Unsupported);
        };
        let mut i: usize = 0;
        while i < xs.len()
            invariant
                fuel >= 1,
                args@.len() == 2,
                fi < module.items@.len(),
            decreases xs@.len() - i,
        {
            let mut two: Vec<Value> = Vec::new();
            two.push(acc);
            two.push(xs[i].duplicate());
            acc = match call_func(module, fi, &two, fuel - 1) {
                Ok(v) => v,
                Err(x) => {
                    return Err(x);
                },
            };
            i = i + 1;
        }
        return Ok(acc);
    }
    Err(EvalError::Unsupported)
}

/// The index of the first record named `name` from item `i` on.
pub open spec fn record_index_from(items: Seq<Item>, name: Seq<char>, i: int) -> Option<int>
    decreases items.len() - i,
{
    if i < 0 || i >= items.len() {
        None
    } else if items[i] matches Item::Record(r) && r.name.name@ == name {
        Some(i)
    } else {
        record_index_from(items, name, i + 1)
    }
}

/// The field names of a record item, in declaration order.
pub open spec fn item_field_names(item: Item) -> Seq<Seq<char>> {
    match item {
        Item::Record(r) => r.fields@.map_values(|f: ast::FieldDef| f.name.name@),
        _ => Seq::empty(),
    }
}

/// The fields of the record type `name` declared in `module`, if any.
fn record_field_names(module: &Module, name: &str) -> (r: Option<Vec<String>>)
    ensures
        r is Some == record_index_from(module.items@, name@, 0) is Some,
        r matches Some(ns) ==> crate::table::views_of(ns@)
            == item_field_names(module.items@[record_index_from(module.items@, name@, 0)->0]),
{
    let mut i: usize = 0;
    while i < module.items.len()
        invariant
            i <= module.items@.len(),
            record_index_from(module.items@, name@, 0) == record_index_from(module.items@, name@, i as int),
        decreases module.items@.len() - i,
    {
        if let Item::Record(r) = &module.items[i] {
            if str_eq(r.name.name.as_str(), name) {
                let mut names: Vec<String> = Vec::new();
                let mut k: usize = 0;
                while k < r.fields.len()
                    invariant
                        k <= r.fields@.len(),
                        crate::table::views_of(names@) == r.fields@.take(k as int).map_values(|f: ast::FieldDef| f.name.name@),
                    decreases r.fields@.len() - k,
                {
                    let ghost n0 = names@;
                    names.push(r.fields[k].name.name.clone());
                    proof {
                        assert(crate::table::views_of(names@) =~= crate::table::views_of(n0).push(r.fields@[k as int].name.name@));
                        assert(r.fields@.take(k + 1).map_values(|f: ast::FieldDef| f.name.name@)
                            =~= r.fields@.take(k as int).map_values(|f: ast::FieldDef| f.name.name@).push(r.fields@[k as int].name.name@));
                    }
                    k = k + 1;
                }
                proof { assert(r.fields@.take(r.fields@.len() as int) =~= r.fields@); }
                return Some(names);
            }
        }
        i = i + 1;
    }
    None
}

/// A record literal: every declared field exactly once, in definition order.
fn eval_record_lit(path: &Vec<ast::Ident>, fields: &Vec<ast::RecordLitField>, env: &Vec<(String, Value)>, module: &Module, in_ensures: bool, fuel: usize)
    -> (r: Result<Value, EvalError>)
    ensures
        path@.len() != 1 ==> r == Err::<Value, EvalError>(EvalError::Unsupported),
        path@.len() == 1 && record_index_from(module.items@, path@[0].name@, 0) is None
            ==> r == Err::<Value, EvalError>(EvalError::Unsupported),
        r matches Ok(v) ==> {
            &&& path@.len() == 1
            &&& record_index_from(module.items@, path@[0].name@, 0) is Some
            &&& v is Record
            &&& crate::table::keys_of(v->Record_0@)
                == item_field_names(module.items@[record_index_from(module.items@, path@[0].name@, 0)->0])
        },
    decreases fuel, 0nat, fields@,
{
    if path.len() != 1 {
        return Err(EvalError::Unsupported);
    }
    let Some(names) = record_field_names(module, path[0].name.as_str()) else {
        return Err(EvalError::Unsupported);
    };
    if names.len() != fields.len() {
        return Err(EvalError::Unsupported);
    }
    let mut out: Vec<(String, Value)> = Vec::new();
    let mut k: usize = 0;
    while k < names.len()
        invariant
            k <= names@.len(),
            path@.len() == 1,
            record_index_from(module.items@, path@[0].name@, 0) is Some,
            crate::table::keys_of(out@) == crate::table::views_of(names@).take(k as int),
        decreases names@.len() - k,
    {
        let mut found: Option<usize> = None;
        let mut j: usize = 0;
        while j < fields.len()
            invariant
                k < names@.len(),
                path@.len() == 1,
                record_index_from(module.items@, path@[0].name@, 0) is Some,
                j <= fields@.len(),
                found matches Some(x) ==> x < fields@.len(),
            decreases fields@.len() - j,
        {
            if found.is_none() && str_eq(fields[j].name.name.as_str(), names[k].as_str()) {
                found = Some(j);
            }
            j = j + 1;
        }
        let Some(j) = found else {
            return Err(EvalError::Unsupported);
        };
        let v = match &fields[j].value {
            Some(e) => {
                assert(decreases_to!(fields@ => fields@[j as int]));
                assert(decreases_to!(fields@[j as int] => fields@[j as int].value));
                match eval_expr(e, env, module, in_ensures, fuel) {
                    Ok(v) => v,
                    Err(x) => {
                        return Err(x);
                    },
                }
            },
            None => match lookup(env, fields[j].name.name.as_str()) {
                Some(v) => v,
                None => {
                    return Err(EvalError::Unsupported);
                },
            },
        };
        let ghost o0 = out@;
        out.push((names[k].clone(), v));
        proof {
            assert(crate::table::keys_of(out@) =~= crate::table::keys_of(o0).push(names@[k as int]@));
            assert(crate::table::views_of(names@).take(k + 1) =~= crate::table::views_of(names@).take(k as int).push(names@[k as int]@));
        }
        k = k + 1;
    }
    proof { assert(crate::table::views_of(names@).take(names@.len() as int) =~= crate::table::views_of(names@)); }
    Ok(Value::Record(out))
}

/// Evaluates an expression.
pub fn eval_expr(e: &Expr, env: &Vec<(String, Value)>, module: &Module, in_ensures: bool, fuel: usize) -> (r: Result<Value, EvalError>)
    ensures
        *e matches Expr::Int { value, .. } ==> r == Ok::<Value, EvalError>(Value::Int(value)),
        *e matches Expr::Bool { value, .. } ==> r == Ok::<Value, EvalError>(Value::Bool(value)),
        *e matches Expr::Str { value, .. } ==> r == Ok::<Value, EvalError>(Value::Str(value)),
        *e matches Expr::Name { name, .. } ==> (r is Ok <==> has_key(env@, name@)),
        *e matches Expr::Name { name, .. } ==> (has_key(env@, name@) ==> (r matches Ok(v) && same_value(v, env@[spec_find(env@, name@)->0].1))),
    decreases fuel, 0nat, *e,
{
    match e {
        Expr::Int { value, .. } => Ok(Value::Int(*value)),
        Expr::Bool { value, .. } => Ok(Value::Bool(*value)),
        Expr::Str { value, .. } => Ok(Value::Str(value.clone())),
        Expr::Name { name, .. } => match lookup(env, name.as_str()) {
            Some(v) => Ok(v),
            None => Err(EvalError::Unsupported),
        },
        Expr::Unary { op, expr, .. } => {
            let v = match eval_expr(expr, env, module, in_ensures, fuel) {
                Ok(v) => v,
                Err(x) => {
                    return Err(x);
                },
            };
            match (op, v) {
                (UnaryOp::Neg, Value::Int(n)) => if n == i64::MIN { Err(EvalError::Trap) } else { Ok(Value::Int(-n)) },
                (UnaryOp::Not, Value::Bool(b)) => Ok(Value::Bool(!b)),
                _ => Err(EvalError::Unsupported),
            }
        },
        Expr::Binary { op, lhs, rhs, .. } => {
            let l = match eval_expr(lhs, env, module, in_ensures, fuel) {
                Ok(v) => v,
                Err(x) => {
                    return Err(x);
                },
            };
            let r = match eval_expr(rhs, env, module, in_ensures, fuel) {
                Ok(v) => v,
                Err(x) => {
                    return Err(x);
                },
            };
            eval_binary(*op, l, r)
        },
        Expr::Field { base, name, .. } => {
            let b = match eval_expr(base, env, module, in_ensures, fuel) {
                Ok(v) => v,
                Err(x) => {
                    return Err(x);
                },
            };
            match b {
                Value::Record(fs) => match find_key(&fs, name.name.as_str()) {
                    Some(i) => Ok(fs[i].1.duplicate()),
                    None => Err(EvalError::Unsupported),
                },
                Value::List(xs) => {
                    if str_eq(name.name.as_str(), "length") && xs.len() <= i64::MAX as usize {
                        Ok(Value::Int(xs.len() as i64))
                    } else {
                        Err(EvalError::Unsupported)
                    }
                },
                _ => Err(EvalError::Unsupported),
            }
        },
        Expr::Call { callee, args, .. } => {
            match &**callee {
                Expr::Name { name, .. } => {
                    if str_eq(name.as_str(), "old") {
                        if !in_ensures || args.len() != 1 {
                            return Err(EvalError::Unsupported);
                        }
                        assert(decreases_to!(args@ => args@[0]));
                        return eval_expr(&args[0], env, module, in_ensures, fuel);
                    }
                    if fuel == 0 {
                        return Err(EvalError::Unsupported);
                    }
                    match find_func(module, name.as_str()) {
                        Some(fi) => {
                            if let Item::Func(f) = &module.items[fi] {
                                if f.uses.len() > 0 {
                                    return Err(EvalError::Unsupported);
                                }
                            }
                            let argv = match eval_args(args, env, module, in_ensures, fuel) {
                                Ok(v) => v,
                                Err(x) => {
                                    return Err(x);
                                },
                            };
                            call_func(module, fi, &argv, fuel - 1)
                        },
                        None => Err(EvalError::Unsupported),
                    }
                },
                Expr::Field { base, name: method, .. } => {
                    let b = match eval_expr(base, env, module, in_ensures, fuel) {
                        Ok(v) => v,
                        Err(x) => {
                            return Err(x);
                        },
                    };
                    match b {
                        Value::List(xs) => eval_list_method(&xs, method.name.as_str(), args, env, module, in_ensures, fuel),
                        _ => Err(EvalError::Unsupported),
                    }
                },
                _ => Err(EvalError::Unsupported),
            }
        },
        Expr::RecordLit { path, fields, .. } => eval_record_lit(path, fields, env, module, in_ensures, fuel),
        Expr::ListLit { elements, .. } => match eval_args(elements, env, module, in_ensures, fuel) {
            Ok(vs) => Ok(Value::List(vs)),
            Err(x) => Err(x),
        },
        _ => Err(EvalError::Unsupported),
    }
}

} // verus!
