//! Evaluation of whole programs: literals, arithmetic, scoping, closures.

use std::rc::Rc;

use tinylisp::builtins;
use tinylisp::eval::eval_program;
use tinylisp::parser::parse;
use tinylisp::value::{BuiltinFn, Value};

const FUEL: u64 = 1_000_000;

fn run(src: &str) -> Result<Value, tinylisp::value::BadProgram> {
    let ast = parse(src).expect("program should parse");
    eval_program(FUEL, &ast)
}

fn chars(s: &str) -> Vec<char> {
    s.chars().collect()
}

#[test]
fn addition_of_two_numbers() {
    assert_eq!(run("[+ 1 2]"), Ok(Value::Number(3)));
}

#[test]
fn subtraction_multiplication_division() {
    assert_eq!(run("[- 10 4]"), Ok(Value::Number(6)));
    assert_eq!(run("[* 6 7]"), Ok(Value::Number(42)));
    assert_eq!(run("[/ 7 2]"), Ok(Value::Number(3)));
    assert_eq!(run("[/ 0 5]"), Ok(Value::Number(0)));
}

#[test]
fn division_by_zero_fails() {
    assert!(run("[/ 1 0]").is_err());
}

#[test]
fn arithmetic_wraps_on_overflow() {
    let r = BuiltinFn::Add.call(FUEL, vec![Value::Number(i64::MAX), Value::Number(1)]);
    assert_eq!(r, Ok(Value::Number(i64::MIN)));
    let r = BuiltinFn::Mul.call(FUEL, vec![Value::Number(i64::MIN), Value::Number(-1)]);
    assert_eq!(r, Ok(Value::Number(i64::MIN)));
}

#[test]
fn arithmetic_arity_and_kind_checked() {
    assert!(run("[+ 1]").is_err());
    assert!(run("[+ 1 2 3]").is_err());
    assert!(run("[+ 1 \"x\"]").is_err());
}

#[test]
fn literals_evaluate_to_themselves() {
    assert_eq!(run("5"), Ok(Value::Number(5)));
    assert_eq!(run("\"hi\""), Ok(Value::Str(Rc::new(chars("hi")))));
}

#[test]
fn unbound_symbol_fails() {
    assert!(run("nosuchname").is_err());
}

#[test]
fn empty_list_fails() {
    assert!(run("[]").is_err());
}

#[test]
fn number_is_not_callable() {
    assert!(run("[1 2]").is_err());
}

#[test]
fn block_with_let_bindings() {
    assert_eq!(run("[block [let x 5] [* x x]]"), Ok(Value::Number(25)));
}

#[test]
fn later_statements_see_earlier_bindings() {
    assert_eq!(run("[block [let x 1] [let y [+ x 1]] y]"), Ok(Value::Number(2)));
}

#[test]
fn shadowing_nearest_binding_wins() {
    assert_eq!(run("[block [let x 1] [let x 2] x]"), Ok(Value::Number(2)));
}

#[test]
fn builtin_names_can_be_shadowed() {
    assert_eq!(run("[block [let do 9] do]"), Ok(Value::Number(9)));
}

#[test]
fn block_needs_a_final_expression() {
    assert!(run("[block]").is_err());
}

#[test]
fn block_statement_must_be_a_let_form() {
    assert!(run("[block [+ 1 1] 2]").is_err());
    assert!(run("[block [let 5 1] 2]").is_err());
}

#[test]
fn closure_application() {
    assert_eq!(run("[[fn [a b] [+ a b]] 3 4]"), Ok(Value::Number(7)));
}

#[test]
fn closure_arity_mismatch_fails() {
    assert!(run("[[fn [a b] [+ a b]] 3]").is_err());
    assert!(run("[[fn [a b] [+ a b]] 1 2 3]").is_err());
}

#[test]
fn closure_body_is_a_block() {
    assert_eq!(run("[[fn [a] [let b [+ a 1]] [* b b]] 2]"), Ok(Value::Number(9)));
}

#[test]
fn duplicate_parameters_rejected_at_construction() {
    assert!(run("[fn [a a] a]").is_err());
}

#[test]
fn non_symbol_parameter_rejected() {
    assert!(run("[fn [5] 5]").is_err());
}

#[test]
fn fn_needs_parameters_and_body() {
    assert!(run("[fn [a]]").is_err());
    assert!(run("[fn]").is_err());
}

#[test]
fn closure_captures_defining_scope() {
    // A closure over `x` bound to 1; a sibling block binds `x` to 2 and calls
    // the closure: the captured binding is untouched.
    let src = "[block [let x 1] [let f [fn [] x]] [block [let x 2] [f]]]";
    assert_eq!(run(src), Ok(Value::Number(1)));
}

#[test]
fn closure_sees_argument_not_outer_binding() {
    let src = "[block [let x 1] [[fn [x] x] 42]]";
    assert_eq!(run(src), Ok(Value::Number(42)));
}

#[test]
fn evaluation_stops_when_fuel_runs_out() {
    let ast = parse("[+ 1 2]").expect("program should parse");
    assert!(eval_program(1, &ast).is_err());
    assert!(eval_program(0, &ast).is_err());
}

#[test]
fn registry_resolves_builtins() {
    assert!(matches!(builtins::resolve(&chars("+")), Ok(Value::Fn(_))));
    assert!(matches!(builtins::resolve(&chars("block")), Ok(Value::Macro(_))));
    assert!(builtins::resolve(&chars("nope")).is_err());
}

#[test]
fn nested_arithmetic() {
    assert_eq!(run("[+ [* 2 3] [- 10 4]]"), Ok(Value::Number(12)));
}

#[test]
fn closures_can_return_closures() {
    assert_eq!(run("[[[fn [a] [fn [b] [+ a b]]] 2] 3]"), Ok(Value::Number(5)));
}

#[test]
fn outer_binding_visible_after_inner_block() {
    let src = "[block [let x 1] [let ignored [block [let x 2] x]] x]";
    assert_eq!(run(src), Ok(Value::Number(1)));
}

#[test]
fn lone_let_form_is_not_an_expression() {
    // As the final form of a block, `[let x 1]` is evaluated as a call and
    // fails: `let` names no binding and no builtin.
    assert!(run("[block [let x 1]]").is_err());
}

