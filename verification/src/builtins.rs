//! The built-in procedure library: the name table, the declared arities, and
//! the semantics of every builtin that neither performs input/output nor
//! invokes a closure.
//!
//! Numeric builtins operate on 64-bit integers with wrapping arithmetic;
//! `div` and `mod` truncate towards zero, as the machine division does.
//! Array builtins always return a fresh array value and never alias or
//! mutate their argument.

use vstd::prelude::*;

use crate::strings::str_eq;
use crate::value::Builtin;
use crate::value::EvalError;
use crate::value::SpecValue;
use crate::value::Value;
use crate::value::dup_value;
use crate::value::value_view;
use crate::value::value_wf;
use crate::value::values_view;

verus! {

broadcast use crate::value::lemma_values_view_len, crate::value::lemma_values_view_index;

/// The builtin named by `name`, if any. This is the single flat table of
/// built-in procedures; user bindings never shadow it.
pub open spec fn builtin_of(name: Seq<char>) -> Option<Builtin> {
    if name == "add"@ {
        Option::Some(Builtin::Add)
    } else if name == "sub"@ {
        Option::Some(Builtin::Sub)
    } else if name == "mul"@ {
        Option::Some(Builtin::Mul)
    } else if name == "div"@ {
        Option::Some(Builtin::Div)
    } else if name == "pow"@ {
        Option::Some(Builtin::Pow)
    } else if name == "mod"@ {
        Option::Some(Builtin::Modulo)
    } else if name == "abs"@ {
        Option::Some(Builtin::Abs)
    } else if name == "max"@ {
        Option::Some(Builtin::Max)
    } else if name == "min"@ {
        Option::Some(Builtin::Min)
    } else if name == "fact"@ {
        Option::Some(Builtin::Fact)
    } else if name == "eq"@ {
        Option::Some(Builtin::Equal)
    } else if name == "<"@ {
        Option::Some(Builtin::Lt)
    } else if name == ">"@ {
        Option::Some(Builtin::Gt)
    } else if name == "<="@ {
        Option::Some(Builtin::Le)
    } else if name == ">="@ {
        Option::Some(Builtin::Ge)
    } else if name == "zero?"@ {
        Option::Some(Builtin::IsZero)
    } else if name == "intArray"@ {
        Option::Some(Builtin::IntArray)
    } else if name == "stringArray"@ {
        Option::Some(Builtin::StringArray)
    } else if name == "len"@ {
        Option::Some(Builtin::Len)
    } else if name == "get"@ {
        Option::Some(Builtin::Get)
    } else if name == "set"@ {
        Option::Some(Builtin::SetAt)
    } else if name == "append"@ {
        Option::Some(Builtin::Append)
    } else if name == "remove"@ {
        Option::Some(Builtin::Remove)
    } else if name == "rev"@ {
        Option::Some(Builtin::Rev)
    } else if name == "sort"@ {
        Option::Some(Builtin::Sort)
    } else if name == "empty?"@ {
        Option::Some(Builtin::IsEmpty)
    } else if name == "head"@ {
        Option::Some(Builtin::Head)
    } else if name == "tail"@ {
        Option::Some(Builtin::Tail)
    } else if name == "last"@ {
        Option::Some(Builtin::Last)
    } else if name == "sum"@ {
        Option::Some(Builtin::Sum)
    } else if name == "product"@ {
        Option::Some(Builtin::Product)
    } else if name == "median"@ {
        Option::Some(Builtin::Median)
    } else if name == "mean"@ {
        Option::Some(Builtin::Mean)
    } else if name == "maxArray"@ {
        Option::Some(Builtin::MaxArray)
    } else if name == "minArray"@ {
        Option::Some(Builtin::MinArray)
    } else if name == "map"@ {
        Option::Some(Builtin::MapArray)
    } else if name == "filter"@ {
        Option::Some(Builtin::FilterArray)
    } else if name == "fold"@ {
        Option::Some(Builtin::FoldArray)
    } else if name == "print"@ {
        Option::Some(Builtin::Print)
    } else if name == "wait"@ {
        Option::Some(Builtin::Wait)
    } else {
        Option::None
    }
}

/// Executable lookup in the builtin table.
pub fn lookup_builtin(name: &str) -> (r: Option<Builtin>)
    ensures
        r == builtin_of(name@),
{
    if str_eq(name, "add") {
        Option::Some(Builtin::Add)
    } else if str_eq(name, "sub") {
        Option::Some(Builtin::Sub)
    } else if str_eq(name, "mul") {
        Option::Some(Builtin::Mul)
    } else if str_eq(name, "div") {
        Option::Some(Builtin::Div)
    } else if str_eq(name, "pow") {
        Option::Some(Builtin::Pow)
    } else if str_eq(name, "mod") {
        Option::Some(Builtin::Modulo)
    } else if str_eq(name, "abs") {
        Option::Some(Builtin::Abs)
    } else if str_eq(name, "max") {
        Option::Some(Builtin::Max)
    } else if str_eq(name, "min") {
        Option::Some(Builtin::Min)
    } else if str_eq(name, "fact") {
        Option::Some(Builtin::Fact)
    } else if str_eq(name, "eq") {
        Option::Some(Builtin::Equal)
    } else if str_eq(name, "<") {
        Option::Some(Builtin::Lt)
    } else if str_eq(name, ">") {
        Option::Some(Builtin::Gt)
    } else if str_eq(name, "<=") {
        Option::Some(Builtin::Le)
    } else if str_eq(name, ">=") {
        Option::Some(Builtin::Ge)
    } else if str_eq(name, "zero?") {
        Option::Some(Builtin::IsZero)
    } else if str_eq(name, "intArray") {
        Option::Some(Builtin::IntArray)
    } else if str_eq(name, "stringArray") {
        Option::Some(Builtin::StringArray)
    } else if str_eq(name, "len") {
        Option::Some(Builtin::Len)
    } else if str_eq(name, "get") {
        Option::Some(Builtin::Get)
    } else if str_eq(name, "set") {
        Option::Some(Builtin::SetAt)
    } else if str_eq(name, "append") {
        Option::Some(Builtin::Append)
    } else if str_eq(name, "remove") {
        Option::Some(Builtin::Remove)
    } else if str_eq(name, "rev") {
        Option::Some(Builtin::Rev)
    } else if str_eq(name, "sort") {
        Option::Some(Builtin::Sort)
    } else if str_eq(name, "empty?") {
        Option::Some(Builtin::IsEmpty)
    } else if str_eq(name, "head") {
        Option::Some(Builtin::Head)
    } else if str_eq(name, "tail") {
        Option::Some(Builtin::Tail)
    } else if str_eq(name, "last") {
        Option::Some(Builtin::Last)
    } else if str_eq(name, "sum") {
        Option::Some(Builtin::Sum)
    } else if str_eq(name, "product") {
        Option::Some(Builtin::Product)
    } else if str_eq(name, "median") {
        Option::Some(Builtin::Median)
    } else if str_eq(name, "mean") {
        Option::Some(Builtin::Mean)
    } else if str_eq(name, "maxArray") {
        Option::Some(Builtin::MaxArray)
    } else if str_eq(name, "minArray") {
        Option::Some(Builtin::MinArray)
    } else if str_eq(name, "map") {
        Option::Some(Builtin::MapArray)
    } else if str_eq(name, "filter") {
        Option::Some(Builtin::FilterArray)
    } else if str_eq(name, "fold") {
        Option::Some(Builtin::FoldArray)
    } else if str_eq(name, "print") {
        Option::Some(Builtin::Print)
    } else if str_eq(name, "wait") {
        Option::Some(Builtin::Wait)
    } else {
        Option::None
    }
}

/// The declared arity of a builtin; `None` for the variadic ones
/// (`intArray`, `stringArray`, `print`).
pub open spec fn builtin_arity(k: Builtin) -> Option<int> {
    match k {
        Builtin::Add => Option::Some(2),
        Builtin::Sub => Option::Some(2),
        Builtin::Mul => Option::Some(2),
        Builtin::Div => Option::Some(2),
        Builtin::Pow => Option::Some(2),
        Builtin::Modulo => Option::Some(2),
        Builtin::Abs => Option::Some(1),
        Builtin::Max => Option::Some(2),
        Builtin::Min => Option::Some(2),
        Builtin::Fact => Option::Some(1),
        Builtin::Equal => Option::Some(2),
        Builtin::Lt => Option::Some(2),
        Builtin::Gt => Option::Some(2),
        Builtin::Le => Option::Some(2),
        Builtin::Ge => Option::Some(2),
        Builtin::IsZero => Option::Some(1),
        Builtin::IntArray => Option::None,
        Builtin::StringArray => Option::None,
        Builtin::Len => Option::Some(1),
        Builtin::Get => Option::Some(2),
        Builtin::SetAt => Option::Some(3),
        Builtin::Append => Option::Some(2),
        Builtin::Remove => Option::Some(2),
        Builtin::Rev => Option::Some(1),
        Builtin::Sort => Option::Some(1),
        Builtin::IsEmpty => Option::Some(1),
        Builtin::Head => Option::Some(1),
        Builtin::Tail => Option::Some(1),
        Builtin::Last => Option::Some(1),
        Builtin::Sum => Option::Some(1),
        Builtin::Product => Option::Some(1),
        Builtin::Median => Option::Some(1),
        Builtin::Mean => Option::Some(1),
        Builtin::MaxArray => Option::Some(1),
        Builtin::MinArray => Option::Some(1),
        Builtin::MapArray => Option::Some(2),
        Builtin::FilterArray => Option::Some(2),
        Builtin::FoldArray => Option::Some(3),
        Builtin::Print => Option::None,
        Builtin::Wait => Option::Some(1),
    }
}

/// Executable arity table.
pub fn arity_of(k: Builtin) -> (r: Option<usize>)
    ensures
        match r {
            Option::Some(n) => builtin_arity(k) == Option::Some(n as int),
            Option::None => builtin_arity(k) is None,
        },
{
    match k {
        Builtin::Add => Option::Some(2),
        Builtin::Sub => Option::Some(2),
        Builtin::Mul => Option::Some(2),
        Builtin::Div => Option::Some(2),
        Builtin::Pow => Option::Some(2),
        Builtin::Modulo => Option::Some(2),
        Builtin::Abs => Option::Some(1),
        Builtin::Max => Option::Some(2),
        Builtin::Min => Option::Some(2),
        Builtin::Fact => Option::Some(1),
        Builtin::Equal => Option::Some(2),
        Builtin::Lt => Option::Some(2),
        Builtin::Gt => Option::Some(2),
        Builtin::Le => Option::Some(2),
        Builtin::Ge => Option::Some(2),
        Builtin::IsZero => Option::Some(1),
        Builtin::IntArray => Option::None,
        Builtin::StringArray => Option::None,
        Builtin::Len => Option::Some(1),
        Builtin::Get => Option::Some(2),
        Builtin::SetAt => Option::Some(3),
        Builtin::Append => Option::Some(2),
        Builtin::Remove => Option::Some(2),
        Builtin::Rev => Option::Some(1),
        Builtin::Sort => Option::Some(1),
        Builtin::IsEmpty => Option::Some(1),
        Builtin::Head => Option::Some(1),
        Builtin::Tail => Option::Some(1),
        Builtin::Last => Option::Some(1),
        Builtin::Sum => Option::Some(1),
        Builtin::Product => Option::Some(1),
        Builtin::Median => Option::Some(1),
        Builtin::Mean => Option::Some(1),
        Builtin::MaxArray => Option::Some(1),
        Builtin::MinArray => Option::Some(1),
        Builtin::MapArray => Option::Some(2),
        Builtin::FilterArray => Option::Some(2),
        Builtin::FoldArray => Option::Some(3),
        Builtin::Print => Option::None,
        Builtin::Wait => Option::Some(1),
    }
}

/// Whether a builtin is pure: neither records an effect nor invokes a
/// closure. The pure builtins are a function of their arguments alone.
pub open spec fn is_pure(k: Builtin) -> bool {
    !(k == Builtin::Print || k == Builtin::Wait || k == Builtin::MapArray || k
        == Builtin::FilterArray || k == Builtin::FoldArray)
}

/// The magnitude of an integer.
pub open spec fn abs_int(a: int) -> int {
    if a < 0 {
        -a
    } else {
        a
    }
}

/// Division truncating towards zero.
pub open spec fn tdiv(a: int, b: int) -> int {
    if (a < 0) != (b < 0) {
        -(abs_int(a) / abs_int(b))
    } else {
        abs_int(a) / abs_int(b)
    }
}

/// Remainder of truncating division; its sign is the sign of the dividend.
pub open spec fn trem(a: int, b: int) -> int {
    if a < 0 {
        -(abs_int(a) % abs_int(b))
    } else {
        abs_int(a) % abs_int(b)
    }
}

/// The machine quotient of two 64-bit integers (the one overflowing case,
/// the smallest value divided by minus one, wraps to itself).
pub open spec fn div_i64(a: i64, b: i64) -> i64 {
    if a == i64::MIN && b == -1 {
        i64::MIN
    } else {
        tdiv(a as int, b as int) as i64
    }
}

/// The machine remainder of two 64-bit integers.
pub open spec fn rem_i64(a: i64, b: i64) -> i64 {
    trem(a as int, b as int) as i64
}

/// The magnitude of an absolute value, wrapping at the smallest value as the
/// machine operation does.
pub open spec fn abs_i64(a: i64) -> i64 {
    if a == i64::MIN {
        i64::MIN
    } else if a < 0 {
        (-(a as int)) as i64
    } else {
        a
    }
}

/// `a` raised to the power `e` with wrapping multiplication.
pub open spec fn pow_wrap(a: i64, e: nat) -> i64
    decreases e,
{
    if e == 0 {
        1
    } else {
        vstd::wrapping::i64_specs::wrapping_mul(pow_wrap(a, (e - 1) as nat), a)
    }
}

/// The factorial of `k` with wrapping multiplication (`1` for `k <= 0`).
pub open spec fn fact_wrap(k: int) -> i64
    decreases k,
{
    if k <= 0 {
        1
    } else {
        vstd::wrapping::i64_specs::wrapping_mul(fact_wrap(k - 1), k as i64)
    }
}

/// The wrapping sum of a sequence, added left to right.
pub open spec fn sum_wrap(s: Seq<i64>) -> i64
    decreases s.len(),
{
    if s.len() == 0 {
        0
    } else {
        vstd::wrapping::i64_specs::wrapping_add(sum_wrap(s.drop_last()), s.last())
    }
}

/// The wrapping product of a sequence, multiplied left to right.
pub open spec fn prod_wrap(s: Seq<i64>) -> i64
    decreases s.len(),
{
    if s.len() == 0 {
        1
    } else {
        vstd::wrapping::i64_specs::wrapping_mul(prod_wrap(s.drop_last()), s.last())
    }
}

/// The greatest element of a nonempty sequence.
pub open spec fn max_num(s: Seq<i64>) -> i64
    decreases s.len(),
{
    if s.len() <= 1 {
        s[0]
    } else if s.last() > max_num(s.drop_last()) {
        s.last()
    } else {
        max_num(s.drop_last())
    }
}

/// The least element of a nonempty sequence.
pub open spec fn min_num(s: Seq<i64>) -> i64
    decreases s.len(),
{
    if s.len() <= 1 {
        s[0]
    } else if s.last() < min_num(s.drop_last()) {
        s.last()
    } else {
        min_num(s.drop_last())
    }
}

/// `x` inserted into `s` behind every smaller-or-equal element; keeps an
/// ascending sequence ascending.
pub open spec fn insert_num(s: Seq<i64>, x: i64) -> Seq<i64>
    decreases s.len(),
{
    if s.len() == 0 {
        seq![x]
    } else if x >= s.last() {
        s.push(x)
    } else {
        insert_num(s.drop_last(), x).push(s.last())
    }
}

/// Insertion sort: the ascending rearrangement of `s`.
pub open spec fn sort_nums(s: Seq<i64>) -> Seq<i64>
    decreases s.len(),
{
    if s.len() == 0 {
        Seq::empty()
    } else {
        insert_num(sort_nums(s.drop_last()), s.last())
    }
}

/// Whether every element is a `Number`.
pub open spec fn all_numbers(vs: Seq<SpecValue>) -> bool {
    forall|i: int| 0 <= i < vs.len() ==> (#[trigger] vs[i]) is Number
}

/// Whether every element is a `Str`.
pub open spec fn all_strings(vs: Seq<SpecValue>) -> bool {
    forall|i: int| 0 <= i < vs.len() ==> (#[trigger] vs[i]) is Str
}

/// The numbers of a sequence of `Number` values.
pub open spec fn nums_of(vs: Seq<SpecValue>) -> Seq<i64> {
    Seq::new(vs.len(), |i: int| vs[i]->Number_0)
}

/// Numbers wrapped back into values.
pub open spec fn wrap_nums(s: Seq<i64>) -> Seq<SpecValue> {
    Seq::new(s.len(), |i: int| SpecValue::Number(s[i]))
}

/// What each pure builtin returns, given arguments of the right count
/// (its value on an impure builtin is unspecified and never used).
/// `pow` truncates its exponent to 32 bits before the wrapping
/// exponentiation, as the machine power operation takes a 32-bit exponent.
pub open spec fn pure_spec(k: Builtin, avs: Seq<SpecValue>) -> Result<SpecValue, EvalError> {
    match k {
        Builtin::Add => match (avs[0], avs[1]) {
            (SpecValue::Number(a), SpecValue::Number(b)) => Result::Ok(
                SpecValue::Number(vstd::wrapping::i64_specs::wrapping_add(a, b)),
            ),
            _ => Result::Err(EvalError::TypeMismatch),
        },
        Builtin::Sub => match (avs[0], avs[1]) {
            (SpecValue::Number(a), SpecValue::Number(b)) => Result::Ok(
                SpecValue::Number(vstd::wrapping::i64_specs::wrapping_sub(a, b)),
            ),
            _ => Result::Err(EvalError::TypeMismatch),
        },
        Builtin::Mul => match (avs[0], avs[1]) {
            (SpecValue::Number(a), SpecValue::Number(b)) => Result::Ok(
                SpecValue::Number(vstd::wrapping::i64_specs::wrapping_mul(a, b)),
            ),
            _ => Result::Err(EvalError::TypeMismatch),
        },
        Builtin::Div => match (avs[0], avs[1]) {
            (SpecValue::Number(a), SpecValue::Number(b)) => if b == 0 {
                Result::Err(EvalError::DivisionByZero)
            } else {
                Result::Ok(SpecValue::Number(div_i64(a, b)))
            },
            _ => Result::Err(EvalError::TypeMismatch),
        },
        Builtin::Pow => match (avs[0], avs[1]) {
            (SpecValue::Number(a), SpecValue::Number(b)) => Result::Ok(
                SpecValue::Number(pow_wrap(a, (b as u32) as nat)),
            ),
            _ => Result::Err(EvalError::TypeMismatch),
        },
        Builtin::Modulo => match (avs[0], avs[1]) {
            (SpecValue::Number(a), SpecValue::Number(b)) => if b == 0 {
                Result::Err(EvalError::DivisionByZero)
            } else {
                Result::Ok(SpecValue::Number(rem_i64(a, b)))
            },
            _ => Result::Err(EvalError::TypeMismatch),
        },
        Builtin::Abs => match avs[0] {
            SpecValue::Number(a) => Result::Ok(SpecValue::Number(abs_i64(a))),
            _ => Result::Err(EvalError::TypeMismatch),
        },
        Builtin::Max => match (avs[0], avs[1]) {
            (SpecValue::Number(a), SpecValue::Number(b)) => Result::Ok(
                SpecValue::Number(if a >= b { a } else { b }),
            ),
            _ => Result::Err(EvalError::TypeMismatch),
        },
        Builtin::Min => match (avs[0], avs[1]) {
            (SpecValue::Number(a), SpecValue::Number(b)) => Result::Ok(
                SpecValue::Number(if a <= b { a } else { b }),
            ),
            _ => Result::Err(EvalError::TypeMismatch),
        },
        Builtin::Fact => match avs[0] {
            SpecValue::Number(a) => if a < 0 {
                Result::Err(EvalError::TypeMismatch)
            } else {
                Result::Ok(SpecValue::Number(fact_wrap(a as int)))
            },
            _ => Result::Err(EvalError::TypeMismatch),
        },
        Builtin::Equal => match (avs[0], avs[1]) {
            (SpecValue::Number(a), SpecValue::Number(b)) => Result::Ok(SpecValue::Bool(a == b)),
            _ => Result::Err(EvalError::TypeMismatch),
        },
        Builtin::Lt => match (avs[0], avs[1]) {
            (SpecValue::Number(a), SpecValue::Number(b)) => Result::Ok(SpecValue::Bool(a < b)),
            _ => Result::Err(EvalError::TypeMismatch),
        },
        Builtin::Gt => match (avs[0], avs[1]) {
            (SpecValue::Number(a), SpecValue::Number(b)) => Result::Ok(SpecValue::Bool(a > b)),
            _ => Result::Err(EvalError::TypeMismatch),
        },
        Builtin::Le => match (avs[0], avs[1]) {
            (SpecValue::Number(a), SpecValue::Number(b)) => Result::Ok(SpecValue::Bool(a <= b)),
            _ => Result::Err(EvalError::TypeMismatch),
        },
        Builtin::Ge => match (avs[0], avs[1]) {
            (SpecValue::Number(a), SpecValue::Number(b)) => Result::Ok(SpecValue::Bool(a >= b)),
            _ => Result::Err(EvalError::TypeMismatch),
        },
        Builtin::IsZero => match avs[0] {
            SpecValue::Number(a) => Result::Ok(SpecValue::Bool(a == 0)),
            _ => Result::Err(EvalError::TypeMismatch),
        },
        Builtin::IntArray => if all_numbers(avs) {
            Result::Ok(SpecValue::Array(avs))
        } else {
            Result::Err(EvalError::TypeMismatch)
        },
        Builtin::StringArray => if all_strings(avs) {
            Result::Ok(SpecValue::Array(avs))
        } else {
            Result::Err(EvalError::TypeMismatch)
        },
        Builtin::Len => match avs[0] {
            SpecValue::Array(vs) => Result::Ok(SpecValue::Number(vs.len() as i64)),
            _ => Result::Err(EvalError::TypeMismatch),
        },
        Builtin::Get => match (avs[0], avs[1]) {
            (SpecValue::Array(vs), SpecValue::Number(i)) => if i < 0 || i >= vs.len() {
                Result::Err(EvalError::IndexOutOfRange)
            } else {
                Result::Ok(vs[i as int])
            },
            _ => Result::Err(EvalError::TypeMismatch),
        },
        Builtin::SetAt => match (avs[0], avs[1]) {
            (SpecValue::Array(vs), SpecValue::Number(i)) => if i < 0 || i >= vs.len() {
                Result::Err(EvalError::IndexOutOfRange)
            } else {
                Result::Ok(SpecValue::Array(vs.update(i as int, avs[2])))
            },
            _ => Result::Err(EvalError::TypeMismatch),
        },
        Builtin::Append => match avs[0] {
            SpecValue::Array(vs) => Result::Ok(SpecValue::Array(vs.push(avs[1]))),
            _ => Result::Err(EvalError::TypeMismatch),
        },
        Builtin::Remove => match (avs[0], avs[1]) {
            (SpecValue::Array(vs), SpecValue::Number(i)) => if i < 0 || i >= vs.len() {
                Result::Err(EvalError::IndexOutOfRange)
            } else {
                Result::Ok(SpecValue::Array(vs.remove(i as int)))
            },
            _ => Result::Err(EvalError::TypeMismatch),
        },
        Builtin::Rev => match avs[0] {
            SpecValue::Array(vs) => Result::Ok(SpecValue::Array(vs.reverse())),
            _ => Result::Err(EvalError::TypeMismatch),
        },
        Builtin::Sort => match avs[0] {
            SpecValue::Array(vs) => if all_numbers(vs) {
                Result::Ok(SpecValue::Array(wrap_nums(sort_nums(nums_of(vs)))))
            } else {
                Result::Err(EvalError::TypeMismatch)
            },
            _ => Result::Err(EvalError::TypeMismatch),
        },
        Builtin::IsEmpty => match avs[0] {
            SpecValue::Array(vs) => Result::Ok(SpecValue::Bool(vs.len() == 0)),
            _ => Result::Err(EvalError::TypeMismatch),
        },
        Builtin::Head => match avs[0] {
            SpecValue::Array(vs) => if vs.len() == 0 {
                Result::Err(EvalError::EmptyCollection)
            } else {
                Result::Ok(vs[0])
            },
            _ => Result::Err(EvalError::TypeMismatch),
        },
        Builtin::Tail => match avs[0] {
            SpecValue::Array(vs) => if vs.len() == 0 {
                Result::Err(EvalError::EmptyCollection)
            } else {
                Result::Ok(SpecValue::Array(vs.subrange(1, vs.len() as int)))
            },
            _ => Result::Err(EvalError::TypeMismatch),
        },
        Builtin::Last => match avs[0] {
            SpecValue::Array(vs) => if vs.len() == 0 {
                Result::Err(EvalError::EmptyCollection)
            } else {
                Result::Ok(vs.last())
            },
            _ => Result::Err(EvalError::TypeMismatch),
        },
        Builtin::Sum => match avs[0] {
            SpecValue::Array(vs) => if all_numbers(vs) {
                Result::Ok(SpecValue::Number(sum_wrap(nums_of(vs))))
            } else {
                Result::Err(EvalError::TypeMismatch)
            },
            _ => Result::Err(EvalError::TypeMismatch),
        },
        Builtin::Product => match avs[0] {
            SpecValue::Array(vs) => if all_numbers(vs) {
                Result::Ok(SpecValue::Number(prod_wrap(nums_of(vs))))
            } else {
                Result::Err(EvalError::TypeMismatch)
            },
            _ => Result::Err(EvalError::TypeMismatch),
        },
        Builtin::Median => match avs[0] {
            SpecValue::Array(vs) => if !all_numbers(vs) {
                Result::Err(EvalError::TypeMismatch)
            } else if vs.len() == 0 {
                Result::Err(EvalError::EmptyCollection)
            } else {
                let sorted = sort_nums(nums_of(vs));
                if vs.len() % 2 == 0 {
                    Result::Ok(
                        SpecValue::Number(
                            div_i64(
                                vstd::wrapping::i64_specs::wrapping_add(
                                    sorted[vs.len() as int / 2 - 1],
                                    sorted[vs.len() as int / 2],
                                ),
                                2,
                            ),
                        ),
                    )
                } else {
                    Result::Ok(SpecValue::Number(sorted[vs.len() as int / 2]))
                }
            },
            _ => Result::Err(EvalError::TypeMismatch),
        },
        Builtin::Mean => match avs[0] {
            SpecValue::Array(vs) => if !all_numbers(vs) {
                Result::Err(EvalError::TypeMismatch)
            } else if vs.len() == 0 {
                Result::Err(EvalError::EmptyCollection)
            } else {
                Result::Ok(
                    SpecValue::Number(tdiv(sum_wrap(nums_of(vs)) as int, vs.len() as int) as i64),
                )
            },
            _ => Result::Err(EvalError::TypeMismatch),
        },
        Builtin::MaxArray => match avs[0] {
            SpecValue::Array(vs) => if !all_numbers(vs) {
                Result::Err(EvalError::TypeMismatch)
            } else if vs.len() == 0 {
                Result::Err(EvalError::EmptyCollection)
            } else {
                Result::Ok(SpecValue::Number(max_num(nums_of(vs))))
            },
            _ => Result::Err(EvalError::TypeMismatch),
        },
        Builtin::MinArray => match avs[0] {
            SpecValue::Array(vs) => if !all_numbers(vs) {
                Result::Err(EvalError::TypeMismatch)
            } else if vs.len() == 0 {
                Result::Err(EvalError::EmptyCollection)
            } else {
                Result::Ok(SpecValue::Number(min_num(nums_of(vs))))
            },
            _ => Result::Err(EvalError::TypeMismatch),
        },
        _ => Result::Err(EvalError::TypeMismatch),
    }
}


/// The magnitude of a signed 64-bit integer, as an unsigned one.
fn mag_u64(a: i64) -> (m: u64)
    ensures
        m as int == abs_int(a as int),
{
    if a >= 0 {
        a as u64
    } else {
        ((-(a + 1)) as u64) + 1
    }
}

/// The negation of a magnitude of at most `2^63`.
fn neg_mag(m: u64) -> (r: i64)
    requires
        m <= 0x8000_0000_0000_0000,
    ensures
        r as int == -(m as int),
{
    if m == 0 {
        0
    } else {
        -((m - 1) as i64) - 1
    }
}

/// Machine division truncating towards zero; the one overflowing case wraps.
fn div_exec(a: i64, b: i64) -> (q: i64)
    requires
        b != 0,
    ensures
        q == div_i64(a, b),
{
    if a == i64::MIN && b == -1 {
        return i64::MIN;
    }
    let ma = mag_u64(a);
    let mb = mag_u64(b);
    let mq = ma / mb;
    proof {
        vstd::arithmetic::div_mod::lemma_div_nonincreasing(ma as int, mb as int);
        if ma == 0x8000_0000_0000_0000 && mb >= 2 {
            vstd::arithmetic::div_mod::lemma_div_is_ordered_by_denominator(
                ma as int,
                2,
                mb as int,
            );
        }
    }
    if (a < 0) != (b < 0) {
        neg_mag(mq)
    } else {
        mq as i64
    }
}

/// Machine remainder; its sign is the sign of the dividend.
fn rem_exec(a: i64, b: i64) -> (r: i64)
    requires
        b != 0,
    ensures
        r == rem_i64(a, b),
{
    let ma = mag_u64(a);
    let mb = mag_u64(b);
    let mr = ma % mb;
    proof {
        vstd::arithmetic::div_mod::lemma_mod_decreases(ma as nat, mb as nat);
    }
    if a < 0 {
        neg_mag(mr)
    } else {
        mr as i64
    }
}

/// Truncating division of a sum by a positive element count.
fn div_by_count(sum: i64, cnt: u64) -> (q: i64)
    requires
        cnt >= 1,
    ensures
        q as int == tdiv(sum as int, cnt as int),
{
    let ma = mag_u64(sum);
    let mq = ma / cnt;
    proof {
        vstd::arithmetic::div_mod::lemma_div_nonincreasing(ma as int, cnt as int);
    }
    if sum < 0 {
        neg_mag(mq)
    } else {
        mq as i64
    }
}

/// The machine absolute value (the smallest value wraps to itself).
fn abs_exec(a: i64) -> (r: i64)
    ensures
        r == abs_i64(a),
{
    if a == i64::MIN {
        i64::MIN
    } else if a < 0 {
        -a
    } else {
        a
    }
}

/// `a` to the power `e`, with wrapping multiplication.
fn pow_exec(a: i64, e: u32) -> (r: i64)
    ensures
        r == pow_wrap(a, e as nat),
{
    let mut r: i64 = 1;
    let mut k: u32 = 0;
    while k < e
        invariant
            k <= e,
            r == pow_wrap(a, k as nat),
        decreases e - k,
    {
        r = r.wrapping_mul(a);
        k = k + 1;
    }
    r
}

/// The factorial of a nonnegative number, with wrapping multiplication.
fn fact_exec(n: i64) -> (r: i64)
    requires
        n >= 0,
    ensures
        r == fact_wrap(n as int),
{
    let mut r: i64 = 1;
    let mut k: i64 = 0;
    while k < n
        invariant
            0 <= k <= n,
            r == fact_wrap(k as int),
        decreases n - k,
    {
        r = r.wrapping_mul(k + 1);
        k = k + 1;
    }
    r
}

/// The numbers held by an all-`Number` array, or a type error.
fn nums_from(varr: &Vec<Value>) -> (r: Result<Vec<i64>, EvalError>)
    ensures
        ({
            let vs = values_view(varr@);
            match r {
                Result::Ok(ns) => all_numbers(vs) && ns@ == nums_of(vs),
                Result::Err(e) => !all_numbers(vs) && e == EvalError::TypeMismatch,
            }
        }),
{
    let mut out: Vec<i64> = Vec::new();
    let mut i: usize = 0;
    while i < varr.len()
        invariant
            i <= varr@.len(),
            out@.len() == i as int,
            forall|j: int|
                0 <= j < i ==> (#[trigger] values_view(varr@)[j]) is Number && out@[j]
                    == values_view(varr@)[j]->Number_0,
        decreases varr@.len() - i,
    {
        match &varr[i] {
            Value::Number(n) => {
                out.push(*n);
            },
            _ => {
                proof {
                    assert(!(values_view(varr@)[i as int] is Number));
                }
                return Result::Err(EvalError::TypeMismatch);
            },
        }
        i = i + 1;
    }
    proof {
        assert(out@ =~= nums_of(values_view(varr@)));
    }
    Result::Ok(out)
}

/// The wrapping sum of a list of numbers, left to right.
fn sum_exec(ns: &Vec<i64>) -> (r: i64)
    ensures
        r == sum_wrap(ns@),
{
    let mut r: i64 = 0;
    let mut i: usize = 0;
    while i < ns.len()
        invariant
            i <= ns@.len(),
            r == sum_wrap(ns@.take(i as int)),
        decreases ns@.len() - i,
    {
        proof {
            assert(ns@.take(i + 1).drop_last() =~= ns@.take(i as int));
            assert(ns@.take(i + 1).last() == ns@[i as int]);
        }
        r = r.wrapping_add(ns[i]);
        i = i + 1;
    }
    proof {
        assert(ns@.take(ns@.len() as int) =~= ns@);
    }
    r
}

/// The wrapping product of a list of numbers, left to right.
fn prod_exec(ns: &Vec<i64>) -> (r: i64)
    ensures
        r == prod_wrap(ns@),
{
    let mut r: i64 = 1;
    let mut i: usize = 0;
    while i < ns.len()
        invariant
            i <= ns@.len(),
            r == prod_wrap(ns@.take(i as int)),
        decreases ns@.len() - i,
    {
        proof {
            assert(ns@.take(i + 1).drop_last() =~= ns@.take(i as int));
            assert(ns@.take(i + 1).last() == ns@[i as int]);
        }
        r = r.wrapping_mul(ns[i]);
        i = i + 1;
    }
    proof {
        assert(ns@.take(ns@.len() as int) =~= ns@);
    }
    r
}

/// The greatest of a nonempty list of numbers.
fn max_exec(ns: &Vec<i64>) -> (r: i64)
    requires
        ns@.len() > 0,
    ensures
        r == max_num(ns@),
{
    let mut r: i64 = ns[0];
    let mut i: usize = 1;
    while i < ns.len()
        invariant
            1 <= i <= ns@.len(),
            r == max_num(ns@.take(i as int)),
        decreases ns@.len() - i,
    {
        proof {
            assert(ns@.take(i + 1).drop_last() =~= ns@.take(i as int));
            assert(ns@.take(i + 1).last() == ns@[i as int]);
        }
        if ns[i] > r {
            r = ns[i];
        }
        i = i + 1;
    }
    proof {
        assert(ns@.take(ns@.len() as int) =~= ns@);
    }
    r
}

/// The least of a nonempty list of numbers.
fn min_exec(ns: &Vec<i64>) -> (r: i64)
    requires
        ns@.len() > 0,
    ensures
        r == min_num(ns@),
{
    let mut r: i64 = ns[0];
    let mut i: usize = 1;
    while i < ns.len()
        invariant
            1 <= i <= ns@.len(),
            r == min_num(ns@.take(i as int)),
        decreases ns@.len() - i,
    {
        proof {
            assert(ns@.take(i + 1).drop_last() =~= ns@.take(i as int));
            assert(ns@.take(i + 1).last() == ns@[i as int]);
        }
        if ns[i] < r {
            r = ns[i];
        }
        i = i + 1;
    }
    proof {
        assert(ns@.take(ns@.len() as int) =~= ns@);
    }
    r
}

/// When `j` is the first position (from the right) whose element is at most
/// `x`, inserting `x` is a positional insertion at `j`.
proof fn lemma_insert_num_at(s: Seq<i64>, x: i64, j: int)
    requires
        0 <= j <= s.len(),
        j > 0 ==> s[j - 1] <= x,
        forall|k: int| j <= k < s.len() ==> s[k] > x,
    ensures
        insert_num(s, x) == s.insert(j, x),
    decreases s.len(),
{
    if s.len() == 0 {
        assert(insert_num(s, x) =~= s.insert(0, x));
    } else if j == s.len() {
        assert(s.push(x) =~= s.insert(j, x));
    } else {
        lemma_insert_num_at(s.drop_last(), x, j);
        assert(s.drop_last().insert(j, x).push(s.last()) =~= s.insert(j, x));
    }
}

/// `x` inserted into the ascending list `s`, keeping it ascending.
fn insert_sorted(s: Vec<i64>, x: i64) -> (out: Vec<i64>)
    ensures
        out@ == insert_num(s@, x),
{
    let ghost orig = s@;
    let mut s = s;
    let mut j: usize = s.len();
    while j > 0 && s[j - 1] > x
        invariant
            j <= s@.len(),
            s@ == orig,
            forall|k: int| j <= k < s@.len() ==> s@[k] > x,
        decreases j,
    {
        j = j - 1;
    }
    proof {
        lemma_insert_num_at(orig, x, j as int);
    }
    s.insert(j, x);
    s
}

/// Insertion sort: the ascending rearrangement of a list of numbers.
fn sort_exec(ns: &Vec<i64>) -> (out: Vec<i64>)
    ensures
        out@ == sort_nums(ns@),
{
    let mut out: Vec<i64> = Vec::new();
    let mut i: usize = 0;
    while i < ns.len()
        invariant
            i <= ns@.len(),
            out@ == sort_nums(ns@.take(i as int)),
        decreases ns@.len() - i,
    {
        proof {
            assert(ns@.take(i + 1).drop_last() =~= ns@.take(i as int));
            assert(ns@.take(i + 1).last() == ns@[i as int]);
        }
        out = insert_sorted(out, ns[i]);
        i = i + 1;
    }
    proof {
        assert(ns@.take(ns@.len() as int) =~= ns@);
    }
    out
}

/// Numbers wrapped back into an array of `Number` values.
fn wrap_nums_exec(ns: &Vec<i64>) -> (out: Vec<Value>)
    ensures
        values_view(out@) == wrap_nums(ns@),
{
    let mut out: Vec<Value> = Vec::new();
    let mut i: usize = 0;
    while i < ns.len()
        invariant
            i <= ns@.len(),
            out@.len() == i as int,
            forall|j: int| 0 <= j < i ==> out@[j] == Value::Number(ns@[j]),
        decreases ns@.len() - i,
    {
        out.push(Value::Number(ns[i]));
        i = i + 1;
    }
    proof {
        assert(values_view(out@) =~= wrap_nums(ns@));
    }
    out
}

/// Whether every element is a `Number` value.
fn check_all_numbers(args: &Vec<Value>) -> (r: bool)
    ensures
        r == all_numbers(values_view(args@)),
{
    let mut i: usize = 0;
    while i < args.len()
        invariant
            i <= args@.len(),
            forall|j: int| 0 <= j < i ==> (#[trigger] values_view(args@)[j]) is Number,
        decreases args@.len() - i,
    {
        match &args[i] {
            Value::Number(n) => {},
            _ => {
                proof {
                    assert(!(values_view(args@)[i as int] is Number));
                }
                return false;
            },
        }
        i = i + 1;
    }
    true
}

/// Whether every element is a `Str` value.
fn check_all_strings(args: &Vec<Value>) -> (r: bool)
    ensures
        r == all_strings(values_view(args@)),
{
    let mut i: usize = 0;
    while i < args.len()
        invariant
            i <= args@.len(),
            forall|j: int| 0 <= j < i ==> (#[trigger] values_view(args@)[j]) is Str,
        decreases args@.len() - i,
    {
        match &args[i] {
            Value::Str(s) => {},
            _ => {
                proof {
                    assert(!(values_view(args@)[i as int] is Str));
                }
                return false;
            },
        }
        i = i + 1;
    }
    true
}

/// Remove and return the last value (the list is known to be nonempty).
pub(crate) fn pop_val(args: &mut Vec<Value>) -> (v: Value)
    requires
        old(args)@.len() > 0,
    ensures
        final(args)@ == old(args)@.drop_last(),
        v == old(args)@.last(),
{
    match args.pop() {
        Option::Some(v) => v,
        Option::None => {
            proof {
                assert(false);
            }
            Value::Bool(false)
        },
    }
}

/// The two numbers held by a two-value argument list, if that is its shape.
fn two_nums(args: &Vec<Value>) -> (r: Option<(i64, i64)>)
    requires
        args@.len() == 2,
    ensures
        ({
            let vs = values_view(args@);
            match r {
                Option::Some(p) => vs[0] == SpecValue::Number(p.0) && vs[1] == SpecValue::Number(
                    p.1,
                ),
                Option::None => !(vs[0] is Number && vs[1] is Number),
            }
        }),
{
    match (&args[0], &args[1]) {
        (Value::Number(a), Value::Number(b)) => Option::Some((*a, *b)),
        _ => Option::None,
    }
}

/// The number held by a one-value argument list, if that is its shape.
fn one_num(args: &Vec<Value>) -> (r: Option<i64>)
    requires
        args@.len() == 1,
    ensures
        ({
            let vs = values_view(args@);
            match r {
                Option::Some(a) => vs[0] == SpecValue::Number(a),
                Option::None => !(vs[0] is Number),
            }
        }),
{
    match &args[0] {
        Value::Number(a) => Option::Some(*a),
        _ => Option::None,
    }
}


/// The element list of an array value, by reference.
pub(crate) fn as_array(v: &Value) -> (r: Option<&Vec<Value>>)
    ensures
        match r {
            Option::Some(a) => value_view(*v) == SpecValue::Array(values_view(a@)),
            Option::None => !(value_view(*v) is Array),
        },
{
    match v {
        Value::Array(a) => Option::Some(a),
        _ => Option::None,
    }
}

/// The number held by a numeric value, by reference.
pub(crate) fn as_num(v: &Value) -> (r: Option<i64>)
    ensures
        match r {
            Option::Some(n) => value_view(*v) == SpecValue::Number(n),
            Option::None => !(value_view(*v) is Number),
        },
{
    match v {
        Value::Number(n) => Option::Some(*n),
        _ => Option::None,
    }
}

/// The element list of an array value, by move; a type error otherwise.
pub(crate) fn owned_array(v: Value) -> (r: Result<Vec<Value>, EvalError>)
    ensures
        match r {
            Result::Ok(a) => value_view(v) == SpecValue::Array(values_view(a@)),
            Result::Err(e) => !(value_view(v) is Array) && e == EvalError::TypeMismatch,
        },
{
    match v {
        Value::Array(a) => Result::Ok(a),
        _ => Result::Err(EvalError::TypeMismatch),
    }
}

/// The number held by a numeric value, by move; a type error otherwise.
pub(crate) fn owned_num(v: Value) -> (r: Result<i64, EvalError>)
    ensures
        match r {
            Result::Ok(n) => value_view(v) == SpecValue::Number(n),
            Result::Err(e) => !(value_view(v) is Number) && e == EvalError::TypeMismatch,
        },
{
    match v {
        Value::Number(n) => Result::Ok(n),
        _ => Result::Err(EvalError::TypeMismatch),
    }
}

/// Inserting adds one element.
pub proof fn lemma_insert_num_len(s: Seq<i64>, x: i64)
    ensures
        insert_num(s, x).len() == s.len() + 1,
    decreases s.len(),
{
    if s.len() != 0 && !(x >= s.last()) {
        lemma_insert_num_len(s.drop_last(), x);
    }
}

/// Sorting keeps the length.
pub proof fn lemma_sort_nums_len(s: Seq<i64>)
    ensures
        sort_nums(s).len() == s.len(),
    decreases s.len(),
{
    if s.len() != 0 {
        lemma_sort_nums_len(s.drop_last());
        lemma_insert_num_len(sort_nums(s.drop_last()), s.last());
    }
}

/// Apply a pure builtin to its evaluated arguments. The argument count has
/// already been checked against the declared arity.
pub fn apply_pure(k: Builtin, args: Vec<Value>) -> (r: Result<Value, EvalError>)
    requires
        is_pure(k),
        builtin_arity(k) matches Option::Some(n) ==> args@.len() == n,
    ensures
        crate::value::res_view(r) == pure_spec(k, values_view(args@)),
{
    let ghost avs = values_view(args@);
    proof {
        if args@.len() >= 1 {
            assert(avs[0] == value_view(args@[0]));
        }
        if args@.len() >= 2 {
            assert(avs[1] == value_view(args@[1]));
        }
        if args@.len() >= 3 {
            assert(avs[2] == value_view(args@[2]));
        }
    }
    match k {
        Builtin::Add => match two_nums(&args) {
            Option::Some((a, b)) => Result::Ok(Value::Number(a.wrapping_add(b))),
            Option::None => Result::Err(EvalError::TypeMismatch),
        },
        Builtin::Sub => match two_nums(&args) {
            Option::Some((a, b)) => Result::Ok(Value::Number(a.wrapping_sub(b))),
            Option::None => Result::Err(EvalError::TypeMismatch),
        },
        Builtin::Mul => match two_nums(&args) {
            Option::Some((a, b)) => Result::Ok(Value::Number(a.wrapping_mul(b))),
            Option::None => Result::Err(EvalError::TypeMismatch),
        },
        Builtin::Div => match two_nums(&args) {
            Option::Some((a, b)) => if b == 0 {
                Result::Err(EvalError::DivisionByZero)
            } else {
                Result::Ok(Value::Number(div_exec(a, b)))
            },
            Option::None => Result::Err(EvalError::TypeMismatch),
        },
        Builtin::Pow => match two_nums(&args) {
            Option::Some((a, b)) => {
                let e = #[verifier::truncate] (b as u32);
                Result::Ok(Value::Number(pow_exec(a, e)))
            },
            Option::None => Result::Err(EvalError::TypeMismatch),
        },
        Builtin::Modulo => match two_nums(&args) {
            Option::Some((a, b)) => if b == 0 {
                Result::Err(EvalError::DivisionByZero)
            } else {
                Result::Ok(Value::Number(rem_exec(a, b)))
            },
            Option::None => Result::Err(EvalError::TypeMismatch),
        },
        Builtin::Abs => match one_num(&args) {
            Option::Some(a) => Result::Ok(Value::Number(abs_exec(a))),
            Option::None => Result::Err(EvalError::TypeMismatch),
        },
        Builtin::Max => match two_nums(&args) {
            Option::Some((a, b)) => Result::Ok(Value::Number(if a >= b { a } else { b })),
            Option::None => Result::Err(EvalError::TypeMismatch),
        },
        Builtin::Min => match two_nums(&args) {
            Option::Some((a, b)) => Result::Ok(Value::Number(if a <= b { a } else { b })),
            Option::None => Result::Err(EvalError::TypeMismatch),
        },
        Builtin::Fact => match one_num(&args) {
            Option::Some(a) => if a < 0 {
                Result::Err(EvalError::TypeMismatch)
            } else {
                Result::Ok(Value::Number(fact_exec(a)))
            },
            Option::None => Result::Err(EvalError::TypeMismatch),
        },
        Builtin::Equal => match two_nums(&args) {
            Option::Some((a, b)) => Result::Ok(Value::Bool(a == b)),
            Option::None => Result::Err(EvalError::TypeMismatch),
        },
        Builtin::Lt => match two_nums(&args) {
            Option::Some((a, b)) => Result::Ok(Value::Bool(a < b)),
            Option::None => Result::Err(EvalError::TypeMismatch),
        },
        Builtin::Gt => match two_nums(&args) {
            Option::Some((a, b)) => Result::Ok(Value::Bool(a > b)),
            Option::None => Result::Err(EvalError::TypeMismatch),
        },
        Builtin::Le => match two_nums(&args) {
            Option::Some((a, b)) => Result::Ok(Value::Bool(a <= b)),
            Option::None => Result::Err(EvalError::TypeMismatch),
        },
        Builtin::Ge => match two_nums(&args) {
            Option::Some((a, b)) => Result::Ok(Value::Bool(a >= b)),
            Option::None => Result::Err(EvalError::TypeMismatch),
        },
        Builtin::IsZero => match one_num(&args) {
            Option::Some(a) => Result::Ok(Value::Bool(a == 0)),
            Option::None => Result::Err(EvalError::TypeMismatch),
        },
        Builtin::IntArray => if check_all_numbers(&args) {
            Result::Ok(Value::Array(args))
        } else {
            Result::Err(EvalError::TypeMismatch)
        },
        Builtin::StringArray => if check_all_strings(&args) {
            Result::Ok(Value::Array(args))
        } else {
            Result::Err(EvalError::TypeMismatch)
        },
        Builtin::Len => match as_array(&args[0]) {
            Option::Some(v) => {
                let n = #[verifier::truncate] (v.len() as i64);
                Result::Ok(Value::Number(n))
            },
            Option::None => Result::Err(EvalError::TypeMismatch),
        },
        Builtin::Get => match as_array(&args[0]) {
            Option::Some(v) => match as_num(&args[1]) {
                Option::Some(i) => {
                    if i < 0 || (i as u64) >= (v.len() as u64) {
                        Result::Err(EvalError::IndexOutOfRange)
                    } else {
                        let iu = i as usize;
                        Result::Ok(dup_value(&v[iu]))
                    }
                },
                Option::None => Result::Err(EvalError::TypeMismatch),
            },
            Option::None => Result::Err(EvalError::TypeMismatch),
        },
        Builtin::SetAt => {
            let mut rest = args;
            let x = pop_val(&mut rest);
            let iv = pop_val(&mut rest);
            let arrv = pop_val(&mut rest);
            match owned_array(arrv) {
                Result::Ok(v) => match owned_num(iv) {
                    Result::Ok(i) => {
                        if i < 0 || (i as u64) >= (v.len() as u64) {
                            Result::Err(EvalError::IndexOutOfRange)
                        } else {
                            let iu = i as usize;
                            let mut v = v;
                            let ghost oldv = v@;
                            v.set(iu, x);
                            proof {
                                assert(values_view(v@) =~= values_view(oldv).update(
                                    iu as int,
                                    value_view(x),
                                ));
                            }
                            Result::Ok(Value::Array(v))
                        }
                    },
                    Result::Err(e) => Result::Err(e),
                },
                Result::Err(e) => Result::Err(e),
            }
        },
        Builtin::Append => {
            let mut rest = args;
            let x = pop_val(&mut rest);
            let arrv = pop_val(&mut rest);
            match owned_array(arrv) {
                Result::Ok(v) => {
                    let mut v = v;
                    let ghost oldv = v@;
                    v.push(x);
                    proof {
                        assert(values_view(v@) =~= values_view(oldv).push(value_view(x)));
                    }
                    Result::Ok(Value::Array(v))
                },
                Result::Err(e) => Result::Err(e),
            }
        },
        Builtin::Remove => {
            let mut rest = args;
            let iv = pop_val(&mut rest);
            let arrv = pop_val(&mut rest);
            match owned_array(arrv) {
                Result::Ok(v) => match owned_num(iv) {
                    Result::Ok(i) => {
                        if i < 0 || (i as u64) >= (v.len() as u64) {
                            Result::Err(EvalError::IndexOutOfRange)
                        } else {
                            let iu = i as usize;
                            let mut v = v;
                            let ghost oldv = v@;
                            let _removed = v.remove(iu);
                            proof {
                                assert(values_view(v@) =~= values_view(oldv).remove(iu as int));
                            }
                            Result::Ok(Value::Array(v))
                        }
                    },
                    Result::Err(e) => Result::Err(e),
                },
                Result::Err(e) => Result::Err(e),
            }
        },
        Builtin::Rev => {
            let mut rest = args;
            let arrv = pop_val(&mut rest);
            match owned_array(arrv) {
                Result::Ok(v) => {
                    let mut v = v;
                    let ghost orig = v@;
                    let mut out: Vec<Value> = Vec::new();
                    while v.len() > 0
                        invariant
                            v@ == orig.take(v@.len() as int),
                            out@.len() + v@.len() == orig.len(),
                            forall|j: int|
                                0 <= j < out@.len() ==> out@[j] == orig[orig.len() - 1 - j],
                        decreases v@.len(),
                    {
                        let x = pop_val(&mut v);
                        out.push(x);
                        proof {
                            assert(v@ =~= orig.take(v@.len() as int));
                        }
                    }
                    proof {
                        assert(values_view(out@) =~= values_view(orig).reverse());
                    }
                    Result::Ok(Value::Array(out))
                },
                Result::Err(e) => Result::Err(e),
            }
        },
        Builtin::Sort => match as_array(&args[0]) {
            Option::Some(v) => match nums_from(v) {
                Result::Ok(ns) => {
                    let sorted = sort_exec(&ns);
                    let out = wrap_nums_exec(&sorted);
                    Result::Ok(Value::Array(out))
                },
                Result::Err(e) => Result::Err(e),
            },
            Option::None => Result::Err(EvalError::TypeMismatch),
        },
        Builtin::IsEmpty => match as_array(&args[0]) {
            Option::Some(v) => Result::Ok(Value::Bool(v.len() == 0)),
            Option::None => Result::Err(EvalError::TypeMismatch),
        },
        Builtin::Head => match as_array(&args[0]) {
            Option::Some(v) => if v.len() == 0 {
                Result::Err(EvalError::EmptyCollection)
            } else {
                Result::Ok(dup_value(&v[0]))
            },
            Option::None => Result::Err(EvalError::TypeMismatch),
        },
        Builtin::Tail => {
            let mut rest = args;
            let arrv = pop_val(&mut rest);
            match owned_array(arrv) {
                Result::Ok(v) => if v.len() == 0 {
                    Result::Err(EvalError::EmptyCollection)
                } else {
                    let mut v = v;
                    let ghost oldv = v@;
                    let _removed = v.remove(0);
                    proof {
                        assert(values_view(v@) =~= values_view(oldv).subrange(
                            1,
                            oldv.len() as int,
                        ));
                    }
                    Result::Ok(Value::Array(v))
                },
                Result::Err(e) => Result::Err(e),
            }
        },
        Builtin::Last => match as_array(&args[0]) {
            Option::Some(v) => if v.len() == 0 {
                Result::Err(EvalError::EmptyCollection)
            } else {
                Result::Ok(dup_value(&v[v.len() - 1]))
            },
            Option::None => Result::Err(EvalError::TypeMismatch),
        },
        Builtin::Sum => match as_array(&args[0]) {
            Option::Some(v) => match nums_from(v) {
                Result::Ok(ns) => Result::Ok(Value::Number(sum_exec(&ns))),
                Result::Err(e) => Result::Err(e),
            },
            Option::None => Result::Err(EvalError::TypeMismatch),
        },
        Builtin::Product => match as_array(&args[0]) {
            Option::Some(v) => match nums_from(v) {
                Result::Ok(ns) => Result::Ok(Value::Number(prod_exec(&ns))),
                Result::Err(e) => Result::Err(e),
            },
            Option::None => Result::Err(EvalError::TypeMismatch),
        },
        Builtin::Median => match as_array(&args[0]) {
            Option::Some(v) => match nums_from(v) {
                Result::Ok(ns) => if ns.len() == 0 {
                    Result::Err(EvalError::EmptyCollection)
                } else {
                    let sorted = sort_exec(&ns);
                    proof {
                        lemma_sort_nums_len(ns@);
                    }
                    if ns.len() % 2 == 0 {
                        let a = sorted[ns.len() / 2 - 1];
                        let b = sorted[ns.len() / 2];
                        Result::Ok(Value::Number(div_exec(a.wrapping_add(b), 2)))
                    } else {
                        Result::Ok(Value::Number(sorted[ns.len() / 2]))
                    }
                },
                Result::Err(e) => Result::Err(e),
            },
            Option::None => Result::Err(EvalError::TypeMismatch),
        },
        Builtin::Mean => match as_array(&args[0]) {
            Option::Some(v) => match nums_from(v) {
                Result::Ok(ns) => if ns.len() == 0 {
                    Result::Err(EvalError::EmptyCollection)
                } else {
                    let s = sum_exec(&ns);
                    let q = div_by_count(s, ns.len() as u64);
                    Result::Ok(Value::Number(q))
                },
                Result::Err(e) => Result::Err(e),
            },
            Option::None => Result::Err(EvalError::TypeMismatch),
        },
        Builtin::MaxArray => match as_array(&args[0]) {
            Option::Some(v) => match nums_from(v) {
                Result::Ok(ns) => if ns.len() == 0 {
                    Result::Err(EvalError::EmptyCollection)
                } else {
                    Result::Ok(Value::Number(max_exec(&ns)))
                },
                Result::Err(e) => Result::Err(e),
            },
            Option::None => Result::Err(EvalError::TypeMismatch),
        },
        Builtin::MinArray => match as_array(&args[0]) {
            Option::Some(v) => match nums_from(v) {
                Result::Ok(ns) => if ns.len() == 0 {
                    Result::Err(EvalError::EmptyCollection)
                } else {
                    Result::Ok(Value::Number(min_exec(&ns)))
                },
                Result::Err(e) => Result::Err(e),
            },
            Option::None => Result::Err(EvalError::TypeMismatch),
        },
        _ => {
            proof {
                assert(false);
            }
            Result::Err(EvalError::TypeMismatch)
        },
    }
}


/// A pure builtin applied to well-formed values yields a well-formed value:
/// its result is assembled from its arguments, numbers and booleans.
pub proof fn lemma_pure_wf(k: Builtin, avs: Seq<SpecValue>, n: int)
    requires
        forall|i: int| 0 <= i < avs.len() ==> value_wf(#[trigger] avs[i], n),
        builtin_arity(k) matches Option::Some(m) ==> avs.len() == m,
    ensures
        pure_spec(k, avs) matches Result::Ok(v) ==> value_wf(v, n),
{
    if pure_spec(k, avs) is Ok {
        let v = pure_spec(k, avs)->Ok_0;
        match k {
            Builtin::IntArray | Builtin::StringArray => {
                assert(value_wf(SpecValue::Array(avs), n));
            },
            Builtin::Get => {
                let vs = avs[0]->Array_0;
                assert(value_wf(avs[0], n));
                let i = avs[1]->Number_0;
                assert(value_wf(vs[i as int], n));
            },
            Builtin::SetAt => {
                let vs = avs[0]->Array_0;
                let i = avs[1]->Number_0 as int;
                assert(value_wf(avs[0], n));
                assert(value_wf(avs[2], n));
                let upd = vs.update(i, avs[2]);
                assert forall|j: int| 0 <= j < upd.len() implies value_wf(#[trigger] upd[j], n) by {
                    if j != i {
                        assert(upd[j] == vs[j]);
                    }
                }
            },
            Builtin::Append => {
                let vs = avs[0]->Array_0;
                assert(value_wf(avs[0], n));
                assert(value_wf(avs[1], n));
                let upd = vs.push(avs[1]);
                assert forall|j: int| 0 <= j < upd.len() implies value_wf(#[trigger] upd[j], n) by {
                    if j < vs.len() {
                        assert(upd[j] == vs[j]);
                    }
                }
            },
            Builtin::Remove => {
                let vs = avs[0]->Array_0;
                let i = avs[1]->Number_0 as int;
                assert(value_wf(avs[0], n));
                let upd = vs.remove(i);
                assert forall|j: int| 0 <= j < upd.len() implies value_wf(#[trigger] upd[j], n) by {
                    if j < i {
                        assert(upd[j] == vs[j]);
                    } else {
                        assert(upd[j] == vs[j + 1]);
                    }
                }
            },
            Builtin::Rev => {
                let vs = avs[0]->Array_0;
                assert(value_wf(avs[0], n));
                let upd = vs.reverse();
                assert forall|j: int| 0 <= j < upd.len() implies value_wf(#[trigger] upd[j], n) by {
                    assert(upd[j] == vs[vs.len() - 1 - j]);
                }
            },
            Builtin::Sort => {
                let vs = avs[0]->Array_0;
                let srt = wrap_nums(sort_nums(nums_of(vs)));
                assert forall|j: int| 0 <= j < srt.len() implies value_wf(#[trigger] srt[j], n) by {
                    assert(srt[j] is Number);
                }
            },
            Builtin::Tail => {
                let vs = avs[0]->Array_0;
                assert(value_wf(avs[0], n));
                let upd = vs.subrange(1, vs.len() as int);
                assert forall|j: int| 0 <= j < upd.len() implies value_wf(#[trigger] upd[j], n) by {
                    assert(upd[j] == vs[j + 1]);
                }
            },
            Builtin::Head => {
                let vs = avs[0]->Array_0;
                assert(value_wf(avs[0], n));
                assert(value_wf(vs[0], n));
            },
            Builtin::Last => {
                let vs = avs[0]->Array_0;
                assert(value_wf(avs[0], n));
                assert(value_wf(vs[vs.len() - 1], n));
            },
            _ => {},
        }
    }
}

} // verus!
