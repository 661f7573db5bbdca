use interpreter::run;
use interpreter::render;
use interpreter::Effect;
use interpreter::EvalError;
use interpreter::Expr;

const FUEL: u64 = 100_000;

fn num(n: i64) -> Expr {
    Expr::Number(n)
}

fn text(s: &str) -> Expr {
    Expr::Str(s.to_string())
}

fn ident(s: &str) -> Expr {
    Expr::Identifier(s.to_string())
}

fn app(es: Vec<Expr>) -> Expr {
    Expr::Application(es)
}

fn call(name: &str, mut args: Vec<Expr>) -> Expr {
    let mut es = vec![ident(name)];
    es.append(&mut args);
    Expr::Application(es)
}

fn lambda(params: Vec<&str>, body: Expr) -> Expr {
    let ps = params.into_iter().map(ident).collect::<Vec<_>>();
    Expr::Lambda(vec![Expr::Parameters(ps), body])
}

fn let_in(name: &str, value: Expr, body: Expr) -> Expr {
    Expr::Let(Box::new(ident(name)), Box::new(value), Box::new(body))
}

fn assign(name: &str, value: Expr) -> Expr {
    Expr::Assignment(Box::new(ident(name)), Box::new(value))
}

fn clause(cond: Expr, conseq: Expr) -> Expr {
    Expr::Clause(vec![cond, conseq])
}

fn ok_render(e: &Expr) -> String {
    let (r, _) = run(e, FUEL);
    render(&r.expect("evaluation failed"))
}

fn err_of(e: &Expr) -> EvalError {
    let (r, _) = run(e, FUEL);
    match r {
        Ok(v) => panic!("expected an error, got {}", render(&v)),
        Err(e) => e,
    }
}

#[test]
fn scenario_add_two_and_three() {
    let e = call("add", vec![num(2), num(3)]);
    assert_eq!(ok_render(&e), "5");
}

#[test]
fn scenario_divide_by_zero() {
    let e = call("div", vec![num(4), num(0)]);
    assert_eq!(err_of(&e), EvalError::DivisionByZero);
}

#[test]
fn scenario_let_then_multiply() {
    let e = let_in("x", num(7), call("mul", vec![ident("x"), num(3)]));
    assert_eq!(ok_render(&e), "21");
}

#[test]
fn scenario_map_doubles() {
    let double = lambda(vec!["n"], call("mul", vec![ident("n"), num(2)]));
    let arr = call("intArray", vec![num(1), num(2), num(3)]);
    let e = call("map", vec![double, arr]);
    assert_eq!(ok_render(&e), "[2, 4, 6]");
}

#[test]
fn scenario_cond_picks_first_true_clause() {
    let e = Expr::Cond(vec![
        clause(call("zero?", vec![num(0)]), text("yes")),
        clause(ident("true-unused"), text("no")),
    ]);
    assert_eq!(ok_render(&e), "yes");
}

#[test]
fn scenario_get_out_of_range() {
    let arr = call("intArray", vec![num(1)]);
    let e = call("get", vec![arr, num(5)]);
    assert_eq!(err_of(&e), EvalError::IndexOutOfRange);
}

// The closure still resolves its free variable from the scope it was created
// in, after the block that created that scope has been left.
#[test]
fn closure_capture_survives_scope_exit() {
    let make = Expr::Block(vec![let_in("a", num(41), lambda(vec![], ident("a")))]);
    let e = let_in("f", make, app(vec![ident("f")]));
    assert_eq!(ok_render(&e), "41");
}

// A closure created before an assignment observes the assigned value.
#[test]
fn closure_sees_later_assignment() {
    let body = Expr::Block(vec![assign("x0", num(2)), app(vec![ident("c")])]);
    let e = let_in(
        "x0",
        num(1),
        Expr::Block(vec![let_in("c", lambda(vec![], ident("x0")), body)]),
    );
    assert_eq!(ok_render(&e), "2");
}

// An inner `Let` of an already-bound name shadows it inside its body only.
#[test]
fn shadowing_inner_sees_new_binding() {
    let inner = Expr::Block(vec![let_in("y", num(2), ident("y"))]);
    let e = let_in("y", num(1), inner);
    assert_eq!(ok_render(&e), "2");
}

#[test]
fn shadowing_outer_binding_restored() {
    let inner = Expr::Block(vec![let_in("y", num(2), ident("y"))]);
    let e = let_in("y", num(1), Expr::Block(vec![inner, ident("y")]));
    assert_eq!(ok_render(&e), "1");
}

// `set` returns a fresh array; the variable bound to the argument is untouched.
#[test]
fn set_does_not_mutate_bound_array() {
    let arr = call("intArray", vec![num(1), num(2), num(3)]);
    let e = let_in(
        "a",
        arr,
        Expr::Block(vec![let_in(
            "b",
            call("set", vec![ident("a"), num(0), num(99)]),
            ident("a"),
        )]),
    );
    assert_eq!(ok_render(&e), "[1, 2, 3]");
}

#[test]
fn set_returns_updated_copy() {
    let arr = call("intArray", vec![num(1), num(2), num(3)]);
    let e = let_in(
        "a",
        arr,
        Expr::Block(vec![let_in(
            "b",
            call("set", vec![ident("a"), num(0), num(99)]),
            ident("b"),
        )]),
    );
    assert_eq!(ok_render(&e), "[99, 2, 3]");
}

// Running the same tree against fresh initial environments twice yields
// identical results and identical effect logs.
#[test]
fn evaluation_is_deterministic() {
    let e = Expr::Block(vec![
        call("print", vec![text("hi"), num(5)]),
        call("wait", vec![num(3)]),
        call("add", vec![ident("x"), ident("v")]),
    ]);
    let (r1, fx1) = run(&e, FUEL);
    let (r2, fx2) = run(&e, FUEL);
    assert_eq!(render(&r1.unwrap()), render(&r2.unwrap()));
    assert_eq!(fx1.len(), fx2.len());
    for (a, b) in fx1.iter().zip(fx2.iter()) {
        match (a, b) {
            (Effect::Print(s1), Effect::Print(s2)) => assert_eq!(s1, s2),
            (Effect::Wait(n1), Effect::Wait(n2)) => assert_eq!(n1, n2),
            _ => panic!("effect logs differ in shape"),
        }
    }
}

#[test]
fn print_records_space_joined_line() {
    let arr = call("intArray", vec![num(3)]);
    let e = call("print", vec![text("two"), num(1), arr]);
    let (r, fx) = run(&e, FUEL);
    assert_eq!(render(&r.unwrap()), "false");
    assert_eq!(fx.len(), 1);
    match &fx[0] {
        Effect::Print(line) => assert_eq!(line, "two 1 [3]"),
        _ => panic!("expected a print effect"),
    }
}

#[test]
fn wait_records_duration_and_returns_false() {
    let e = call("wait", vec![num(7)]);
    let (r, fx) = run(&e, FUEL);
    assert_eq!(render(&r.unwrap()), "false");
    assert_eq!(fx.len(), 1);
    match &fx[0] {
        Effect::Wait(n) => assert_eq!(*n, 7),
        _ => panic!("expected a wait effect"),
    }
}

#[test]
fn initial_environment_has_roman_constants() {
    assert_eq!(ok_render(&ident("i")), "1");
    assert_eq!(ok_render(&ident("v")), "5");
    assert_eq!(ok_render(&ident("x")), "10");
}

#[test]
fn unbound_identifier_is_its_own_text() {
    assert_eq!(ok_render(&ident("banana")), "banana");
}

#[test]
fn string_naming_a_builtin_dispatches_to_it() {
    let e = app(vec![text("add"), num(1), num(2)]);
    assert_eq!(ok_render(&e), "3");
}

#[test]
fn unbound_name_in_operator_position_dispatches_to_builtin() {
    // `sub` is unbound, resolves to the string "sub", whose rendered text
    // names the builtin.
    let e = app(vec![ident("sub"), num(9), num(4)]);
    assert_eq!(ok_render(&e), "5");
}

#[test]
fn empty_block_yields_false() {
    assert_eq!(ok_render(&Expr::Block(vec![])), "false");
}

#[test]
fn block_yields_last_value() {
    let e = Expr::Block(vec![num(1), num(2), num(3)]);
    assert_eq!(ok_render(&e), "3");
}

#[test]
fn cond_condition_must_be_exactly_true() {
    // A non-boolean condition counts as false, so no clause matches.
    let e = Expr::Cond(vec![clause(num(1), text("never"))]);
    assert_eq!(err_of(&e), EvalError::NoMatchingClause);
}

#[test]
fn assignment_returns_the_assigned_value() {
    let e = let_in("w", num(1), assign("w", num(42)));
    assert_eq!(ok_render(&e), "42");
}

#[test]
fn assignment_to_unbound_name_fails() {
    let e = assign("nowhere", num(1));
    assert_eq!(err_of(&e), EvalError::UnboundVariable);
}

#[test]
fn applying_a_number_is_not_a_procedure() {
    let e = app(vec![num(5), num(1)]);
    assert_eq!(err_of(&e), EvalError::NotAProcedure);
}

#[test]
fn bare_clause_is_a_structural_error() {
    let e = clause(num(1), num(2));
    assert_eq!(err_of(&e), EvalError::StructuralError);
}

#[test]
fn bare_parameters_is_a_structural_error() {
    let e = Expr::Parameters(vec![ident("p")]);
    assert_eq!(err_of(&e), EvalError::StructuralError);
}

#[test]
fn empty_application_is_a_structural_error() {
    let e = app(vec![]);
    assert_eq!(err_of(&e), EvalError::StructuralError);
}

#[test]
fn lambda_with_non_identifier_parameter_is_structural() {
    let e = Expr::Lambda(vec![Expr::Parameters(vec![num(1)]), num(2)]);
    assert_eq!(err_of(&e), EvalError::StructuralError);
}

#[test]
fn exhausted_budget_reports_recursion_limit() {
    let e = num(1);
    let (r, _) = run(&e, 0);
    assert_eq!(r.unwrap_err(), EvalError::RecursionLimit);
}

#[test]
fn closure_with_wrong_argument_count_is_arity_mismatch() {
    let f = lambda(vec!["a"], ident("a"));
    let e = let_in("f", f, app(vec![ident("f"), num(1), num(2)]));
    assert_eq!(err_of(&e), EvalError::ArityMismatch);
}

#[test]
fn closure_arguments_bind_positionally() {
    let f = lambda(vec!["a", "b"], call("sub", vec![ident("a"), ident("b")]));
    let e = let_in("f", f, app(vec![ident("f"), num(10), num(4)]));
    assert_eq!(ok_render(&e), "6");
}

#[test]
fn filter_keeps_only_true_results() {
    let is_even = lambda(
        vec!["n"],
        call("zero?", vec![call("mod", vec![ident("n"), num(2)])]),
    );
    let arr = call("intArray", vec![num(1), num(2), num(3), num(4)]);
    let e = call("filter", vec![is_even, arr]);
    assert_eq!(ok_render(&e), "[2, 4]");
}

#[test]
fn fold_threads_accumulator_left_to_right() {
    let step = lambda(vec!["acc", "n"], call("sub", vec![ident("acc"), ident("n")]));
    let arr = call("intArray", vec![num(1), num(2), num(3)]);
    let e = call("fold", vec![step, num(10), arr]);
    // ((10 - 1) - 2) - 3
    assert_eq!(ok_render(&e), "4");
}

#[test]
fn map_with_two_parameter_closure_is_arity_mismatch() {
    let f = lambda(vec!["a", "b"], ident("a"));
    let arr = call("intArray", vec![num(1)]);
    let e = call("map", vec![f, arr]);
    assert_eq!(err_of(&e), EvalError::ArityMismatch);
}

#[test]
fn map_over_non_array_is_type_mismatch() {
    let f = lambda(vec!["a"], ident("a"));
    let e = call("map", vec![f, num(3)]);
    assert_eq!(err_of(&e), EvalError::TypeMismatch);
}

#[test]
fn closure_body_mutates_captured_counter() {
    // A counter: each call adds one to the captured variable.
    let bump = lambda(vec![], assign("n", call("add", vec![ident("n"), num(1)])));
    let body = Expr::Block(vec![
        app(vec![ident("tick")]),
        app(vec![ident("tick")]),
        ident("n"),
    ]);
    let e = let_in("n", num(0), Expr::Block(vec![let_in("tick", bump, body)]));
    assert_eq!(ok_render(&e), "2");
}
