use interpreter::run;
use interpreter::render;
use interpreter::EvalError;
use interpreter::Expr;

const FUEL: u64 = 100_000;

fn num(n: i64) -> Expr {
    Expr::Number(n)
}

fn text(s: &str) -> Expr {
    Expr::Str(s.to_string())
}

fn ident(s: &str) -> Expr {
    Expr::Identifier(s.to_string())
}

fn call(name: &str, mut args: Vec<Expr>) -> Expr {
    let mut es = vec![ident(name)];
    es.append(&mut args);
    Expr::Application(es)
}

fn int_array(ns: Vec<i64>) -> Expr {
    call("intArray", ns.into_iter().map(num).collect())
}

fn ok_render(e: &Expr) -> String {
    let (r, _) = run(e, FUEL);
    render(&r.expect("evaluation failed"))
}

fn err_of(e: &Expr) -> EvalError {
    let (r, _) = run(e, FUEL);
    match r {
        Ok(v) => panic!("expected an error, got {}", render(&v)),
        Err(e) => e,
    }
}

#[test]
fn arithmetic_exact_values() {
    assert_eq!(ok_render(&call("sub", vec![num(5), num(3)])), "2");
    assert_eq!(ok_render(&call("mul", vec![num(6), num(7)])), "42");
    assert_eq!(ok_render(&call("div", vec![num(7), num(2)])), "3");
    assert_eq!(ok_render(&call("mod", vec![num(7), num(2)])), "1");
    assert_eq!(ok_render(&call("pow", vec![num(2), num(10)])), "1024");
    assert_eq!(ok_render(&call("abs", vec![num(-5)])), "5");
    assert_eq!(ok_render(&call("max", vec![num(3), num(9)])), "9");
    assert_eq!(ok_render(&call("min", vec![num(3), num(9)])), "3");
    assert_eq!(ok_render(&call("fact", vec![num(5)])), "120");
}

#[test]
fn division_truncates_towards_zero() {
    assert_eq!(ok_render(&call("div", vec![num(-7), num(2)])), "-3");
    assert_eq!(ok_render(&call("div", vec![num(7), num(-2)])), "-3");
    assert_eq!(ok_render(&call("mod", vec![num(-7), num(2)])), "-1");
}

#[test]
fn addition_wraps_at_the_top_of_the_range() {
    let e = call("add", vec![num(i64::MAX), num(1)]);
    assert_eq!(ok_render(&e), i64::MIN.to_string());
}

#[test]
fn modulo_by_zero_fails() {
    assert_eq!(err_of(&call("mod", vec![num(4), num(0)])), EvalError::DivisionByZero);
}

#[test]
fn factorial_of_negative_fails() {
    assert_eq!(err_of(&call("fact", vec![num(-1)])), EvalError::TypeMismatch);
}

#[test]
fn comparisons_yield_booleans() {
    assert_eq!(ok_render(&call("eq", vec![num(3), num(3)])), "true");
    assert_eq!(ok_render(&call("eq", vec![num(3), num(4)])), "false");
    assert_eq!(ok_render(&call("<", vec![num(1), num(2)])), "true");
    assert_eq!(ok_render(&call(">", vec![num(1), num(2)])), "false");
    assert_eq!(ok_render(&call("<=", vec![num(2), num(2)])), "true");
    assert_eq!(ok_render(&call(">=", vec![num(1), num(2)])), "false");
    assert_eq!(ok_render(&call("zero?", vec![num(0)])), "true");
    assert_eq!(ok_render(&call("zero?", vec![num(2)])), "false");
}

#[test]
fn arithmetic_on_strings_is_type_mismatch() {
    let e = call("add", vec![text("a"), num(1)]);
    assert_eq!(err_of(&e), EvalError::TypeMismatch);
}

#[test]
fn arity_is_enforced_for_builtins() {
    assert_eq!(err_of(&call("add", vec![num(1)])), EvalError::ArityMismatch);
    assert_eq!(err_of(&call("add", vec![num(1), num(2), num(3)])), EvalError::ArityMismatch);
    assert_eq!(err_of(&call("zero?", vec![num(1), num(2)])), EvalError::ArityMismatch);
    assert_eq!(err_of(&call("len", vec![])), EvalError::ArityMismatch);
    assert_eq!(err_of(&call("set", vec![int_array(vec![1]), num(0)])), EvalError::ArityMismatch);
    assert_eq!(err_of(&call("wait", vec![])), EvalError::ArityMismatch);
    assert_eq!(
        err_of(&call("fold", vec![int_array(vec![1]), num(0)])),
        EvalError::ArityMismatch
    );
}

#[test]
fn array_construction_and_rendering() {
    assert_eq!(ok_render(&int_array(vec![1, 2, 3])), "[1, 2, 3]");
    assert_eq!(ok_render(&int_array(vec![])), "[]");
    let strs = call("stringArray", vec![text("a"), text("b")]);
    assert_eq!(ok_render(&strs), "[a, b]");
}

#[test]
fn int_array_rejects_non_numbers() {
    let e = call("intArray", vec![num(1), text("no")]);
    assert_eq!(err_of(&e), EvalError::TypeMismatch);
}

#[test]
fn string_array_rejects_non_strings() {
    let e = call("stringArray", vec![text("a"), num(1)]);
    assert_eq!(err_of(&e), EvalError::TypeMismatch);
}

#[test]
fn array_access_exact_values() {
    assert_eq!(ok_render(&call("len", vec![int_array(vec![4, 5])])), "2");
    assert_eq!(ok_render(&call("get", vec![int_array(vec![4, 5]), num(1)])), "5");
    assert_eq!(
        ok_render(&call("set", vec![int_array(vec![4, 5]), num(0), num(9)])),
        "[9, 5]"
    );
    assert_eq!(
        ok_render(&call("append", vec![int_array(vec![1]), num(2)])),
        "[1, 2]"
    );
    assert_eq!(
        ok_render(&call("remove", vec![int_array(vec![1, 2, 3]), num(1)])),
        "[1, 3]"
    );
    assert_eq!(
        ok_render(&call("rev", vec![int_array(vec![1, 2, 3])])),
        "[3, 2, 1]"
    );
    assert_eq!(
        ok_render(&call("sort", vec![int_array(vec![3, 1, 2])])),
        "[1, 2, 3]"
    );
    assert_eq!(ok_render(&call("empty?", vec![int_array(vec![])])), "true");
    assert_eq!(ok_render(&call("empty?", vec![int_array(vec![1])])), "false");
    assert_eq!(ok_render(&call("head", vec![int_array(vec![7, 8])])), "7");
    assert_eq!(ok_render(&call("tail", vec![int_array(vec![7, 8, 9])])), "[8, 9]");
    assert_eq!(ok_render(&call("last", vec![int_array(vec![7, 8])])), "8");
}

#[test]
fn negative_index_is_out_of_range() {
    let e = call("get", vec![int_array(vec![1]), num(-1)]);
    assert_eq!(err_of(&e), EvalError::IndexOutOfRange);
    let e = call("set", vec![int_array(vec![1]), num(-1), num(0)]);
    assert_eq!(err_of(&e), EvalError::IndexOutOfRange);
    let e = call("remove", vec![int_array(vec![1]), num(1)]);
    assert_eq!(err_of(&e), EvalError::IndexOutOfRange);
}

#[test]
fn head_tail_last_of_empty_fail() {
    assert_eq!(err_of(&call("head", vec![int_array(vec![])])), EvalError::EmptyCollection);
    assert_eq!(err_of(&call("tail", vec![int_array(vec![])])), EvalError::EmptyCollection);
    assert_eq!(err_of(&call("last", vec![int_array(vec![])])), EvalError::EmptyCollection);
}

#[test]
fn aggregation_exact_values() {
    assert_eq!(ok_render(&call("sum", vec![int_array(vec![1, 2, 3, 4])])), "10");
    assert_eq!(ok_render(&call("sum", vec![int_array(vec![])])), "0");
    assert_eq!(ok_render(&call("product", vec![int_array(vec![1, 2, 3, 4])])), "24");
    assert_eq!(ok_render(&call("median", vec![int_array(vec![3, 1, 2])])), "2");
    assert_eq!(ok_render(&call("median", vec![int_array(vec![4, 1, 3, 2])])), "2");
    assert_eq!(ok_render(&call("mean", vec![int_array(vec![1, 2, 3, 4])])), "2");
    assert_eq!(ok_render(&call("maxArray", vec![int_array(vec![3, 9, 1])])), "9");
    assert_eq!(ok_render(&call("minArray", vec![int_array(vec![3, 9, 1])])), "1");
}

#[test]
fn max_array_handles_the_smallest_value() {
    let e = call("maxArray", vec![int_array(vec![i64::MIN])]);
    assert_eq!(ok_render(&e), i64::MIN.to_string());
}

#[test]
fn aggregation_of_empty_array_fails() {
    assert_eq!(err_of(&call("mean", vec![int_array(vec![])])), EvalError::EmptyCollection);
    assert_eq!(err_of(&call("median", vec![int_array(vec![])])), EvalError::EmptyCollection);
    assert_eq!(err_of(&call("maxArray", vec![int_array(vec![])])), EvalError::EmptyCollection);
    assert_eq!(err_of(&call("minArray", vec![int_array(vec![])])), EvalError::EmptyCollection);
}

fn mixed_array() -> Expr {
    call("append", vec![int_array(vec![1]), text("s")])
}

#[test]
fn aggregation_of_mixed_array_is_type_mismatch() {
    assert_eq!(err_of(&call("sum", vec![mixed_array()])), EvalError::TypeMismatch);
    assert_eq!(err_of(&call("sort", vec![mixed_array()])), EvalError::TypeMismatch);
}

#[test]
fn negative_numbers_render_with_minus_sign() {
    assert_eq!(ok_render(&num(-42)), "-42");
    assert_eq!(ok_render(&num(0)), "0");
    assert_eq!(ok_render(&num(i64::MIN)), i64::MIN.to_string());
}

#[test]
fn nested_arrays_render_nested_brackets() {
    let inner = int_array(vec![1, 2]);
    let e = call("append", vec![int_array(vec![]), inner]);
    assert_eq!(ok_render(&e), "[[1, 2]]");
}

#[test]
fn strings_render_as_raw_text() {
    assert_eq!(ok_render(&text("hello world")), "hello world");
}

#[test]
fn procedures_render_as_placeholders() {
    let e = Expr::Lambda(vec![Expr::Parameters(vec![]), num(1)]);
    assert_eq!(ok_render(&e), "<closure>");
}
