//! Values produced by evaluation, the built-in procedure tags, and the error
//! taxonomy.

use vstd::prelude::*;

use crate::ast::Expr;
use crate::ast::SpecExpr;
use crate::ast::expr_view;

verus! {

/// The tag of a built-in procedure. The mapping from source-level names
/// (`"add"`, `"<"`, `"zero?"`, ...) to tags is in `crate::builtins`.
#[derive(Debug, Clone, Copy, PartialEq, Eq, Structural)]
pub enum Builtin {
    Add,
    Sub,
    Mul,
    Div,
    Pow,
    Modulo,
    Abs,
    Max,
    Min,
    Fact,
    Equal,
    Lt,
    Gt,
    Le,
    Ge,
    IsZero,
    IntArray,
    StringArray,
    Len,
    Get,
    SetAt,
    Append,
    Remove,
    Rev,
    Sort,
    IsEmpty,
    Head,
    Tail,
    Last,
    Sum,
    Product,
    Median,
    Mean,
    MaxArray,
    MinArray,
    MapArray,
    FilterArray,
    FoldArray,
    Print,
    Wait,
}

/// Why an evaluation failed. The first error encountered aborts the rest of
/// the evaluation; nothing is retried or recovered.
#[derive(Debug, Clone, Copy, PartialEq, Eq, Structural)]
pub enum EvalError {
    /// Wrong argument count to a builtin or closure.
    ArityMismatch,
    /// An operand of the wrong value kind.
    TypeMismatch,
    /// `div` or `mod` with a zero divisor.
    DivisionByZero,
    /// An array index that is negative or not below the length.
    IndexOutOfRange,
    /// `head`/`tail`/`last`/`mean`/`median`/`maxArray`/`minArray` of an empty array.
    EmptyCollection,
    /// Assignment to a name never introduced in any enclosing scope.
    UnboundVariable,
    /// A `Cond` in which no clause's condition evaluated to boolean true.
    NoMatchingClause,
    /// Application of a value that is neither a builtin nor a closure.
    NotAProcedure,
    /// `Clause`/`Parameters` misuse, or a malformed `Lambda`/`Let`/
    /// `Assignment`/`Application`/`Cond`.
    StructuralError,
    /// The evaluation descended deeper than the caller's recursion budget.
    /// Evaluation is bounded by call depth, as a native stack would bound it.
    RecursionLimit,
}

/// The result of evaluating an expression.
///
/// A closure holds its parameter names, its unevaluated body, and the handle
/// of the scope it was created in (an index into the `Environment` arena).
#[derive(Debug)]
pub enum Value {
    Number(i64),
    Bool(bool),
    Str(String),
    Array(Vec<Value>),
    Builtin(Builtin),
    Closure(Vec<String>, Box<Expr>, usize),
}

/// The mathematical model of a [`Value`].
pub enum SpecValue {
    Number(i64),
    Bool(bool),
    Str(Seq<char>),
    Array(Seq<SpecValue>),
    Builtin(Builtin),
    Closure(Seq<Seq<char>>, SpecExpr, int),
}

/// The models of a list of parameter names.
pub open spec fn names_view(ss: Seq<String>) -> Seq<Seq<char>> {
    Seq::new(ss.len(), |i: int| ss[i]@)
}

/// The model of a value.
pub open spec fn value_view(v: Value) -> SpecValue
    decreases v,
{
    match v {
        Value::Number(n) => SpecValue::Number(n),
        Value::Bool(b) => SpecValue::Bool(b),
        Value::Str(s) => SpecValue::Str(s@),
        Value::Array(vs) => SpecValue::Array(values_view(vs@)),
        Value::Builtin(k) => SpecValue::Builtin(k),
        Value::Closure(ps, b, e) => SpecValue::Closure(names_view(ps@), expr_view(*b), e as int),
    }
}

/// The models of a list of values, in order.
pub open spec fn values_view(vs: Seq<Value>) -> Seq<SpecValue>
    decreases vs,
{
    if vs.len() == 0 {
        Seq::empty()
    } else {
        proof {
            vstd::seq::axiom_seq_subrange_decreases::<Value>(vs, 1, vs.len() as int);
        }
        seq![value_view(vs[0])] + values_view(vs.subrange(1, vs.len() as int))
    }
}

/// A model list has one entry per value.
pub broadcast proof fn lemma_values_view_len(vs: Seq<Value>)
    ensures
        #[trigger] values_view(vs).len() == vs.len(),
    decreases vs.len(),
{
    if vs.len() != 0 {
        lemma_values_view_len(vs.subrange(1, vs.len() as int));
    }
}

/// The model list is the pointwise model of the values.
pub broadcast proof fn lemma_values_view_index(vs: Seq<Value>, i: int)
    requires
        0 <= i < vs.len(),
    ensures
        #[trigger] values_view(vs)[i] == value_view(vs[i]),
    decreases vs.len(),
{
    lemma_values_view_len(vs);
    if i > 0 {
        lemma_values_view_index(vs.subrange(1, vs.len() as int), i - 1);
    }
}

/// The model of an evaluation outcome.
pub open spec fn res_view(r: Result<Value, EvalError>) -> Result<SpecValue, EvalError> {
    match r {
        Result::Ok(v) => Result::Ok(value_view(v)),
        Result::Err(e) => Result::Err(e),
    }
}

impl View for Value {
    type V = SpecValue;

    open spec fn view(&self) -> SpecValue {
        value_view(*self)
    }
}

/// A value is well formed for a store of `nscopes` scopes when every scope
/// handle held by a closure inside it is a valid index into the store.
pub open spec fn value_wf(v: SpecValue, nscopes: int) -> bool
    decreases v,
{
    match v {
        SpecValue::Array(vs) => forall|i: int|
            0 <= i < vs.len() ==> value_wf(#[trigger] vs[i], nscopes),
        SpecValue::Closure(ps, b, e) => 0 <= e < nscopes,
        _ => true,
    }
}

/// Scope handles stay valid as the store grows.
pub proof fn lemma_value_wf_grow(v: SpecValue, n: int, m: int)
    requires
        value_wf(v, n),
        n <= m,
    ensures
        value_wf(v, m),
    decreases v,
{
    match v {
        SpecValue::Array(vs) => {
            assert forall|i: int| 0 <= i < vs.len() implies value_wf(#[trigger] vs[i], m) by {
                lemma_value_wf_grow(vs[i], n, m);
            }
        },
        _ => {},
    }
}

/// A deep copy of a value, with the same model.
pub fn dup_value(v: &Value) -> (r: Value)
    ensures
        r@ == v@,
    decreases *v,
{
    match v {
        Value::Number(n) => Value::Number(*n),
        Value::Bool(b) => Value::Bool(*b),
        Value::Str(s) => Value::Str(s.clone()),
        Value::Array(vs) => Value::Array(dup_values(vs)),
        Value::Builtin(k) => Value::Builtin(*k),
        Value::Closure(ps, b, e) => {
            let ps2 = ps.clone();
            proof {
                assert(ps2@ =~= ps@);
                assert(names_view(ps2@) =~= names_view(ps@));
            }
            Value::Closure(ps2, Box::new(crate::ast::dup_expr(b)), *e)
        },
    }
}

/// A deep copy of a list of values, with the same models.
pub fn dup_values(vs: &Vec<Value>) -> (r: Vec<Value>)
    ensures
        values_view(r@) == values_view(vs@),
    decreases *vs,
{
    let mut out: Vec<Value> = Vec::new();
    let mut i: usize = 0;
    while i < vs.len()
        invariant
            i <= vs.len(),
            out@.len() == i as int,
            forall|j: int| 0 <= j < i ==> value_view(out@[j]) == value_view(vs@[j]),
        decreases vs.len() - i,
    {
        let d = dup_value(&vs[i]);
        out.push(d);
        i = i + 1;
    }
    proof {
        broadcast use lemma_values_view_len, lemma_values_view_index;

        assert(values_view(out@) =~= values_view(vs@));
    }
    out
}

} // verus!
