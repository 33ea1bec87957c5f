//! Effect descriptions: construction, composition, do-notation, and the pure
//! driver that runs a description against supplied input lines.

use std::rc::Rc;

use tinylisp::eval::eval_program;
use tinylisp::io::{io_then, run_io};
use tinylisp::parser::parse;
use tinylisp::value::{BuiltinFn, Function, Io, Value};

const FUEL: u64 = 1_000_000;

fn run(src: &str) -> Result<Value, tinylisp::value::BadProgram> {
    let ast = parse(src).expect("program should parse");
    eval_program(FUEL, &ast)
}

fn chars(s: &str) -> Vec<char> {
    s.chars().collect()
}

fn line(s: &str) -> Rc<Vec<char>> {
    Rc::new(chars(s))
}

/// Evaluate a program to an effect description and run it on the given input
/// lines.
fn run_effect(src: &str, inputs: &[&str]) -> (Value, Vec<String>) {
    let io = match run(src) {
        Ok(Value::Io(io)) => io,
        other => panic!("expected an effect description, got {:?}", other),
    };
    let supply: Vec<Rc<Vec<char>>> = inputs.iter().map(|s| line(s)).collect();
    let (v, outs) = run_io(FUEL, &io, &supply, 0).expect("running the effect should succeed");
    let outs: Vec<String> = outs.iter().map(|l| l.iter().collect()).collect();
    (v, outs)
}

#[test]
fn return_wraps_a_value() {
    let (v, outs) = run_effect("[return 7]", &[]);
    assert_eq!(v, Value::Number(7));
    assert!(outs.is_empty());
}

#[test]
fn print_line_emits_one_line() {
    let (v, outs) = run_effect("[print_line \"hi\"]", &[]);
    assert_eq!(v, Value::Nil);
    assert_eq!(outs, vec!["hi".to_string()]);
}

#[test]
fn print_line_requires_a_string() {
    assert!(run("[print_line 5]").is_err());
    assert!(run("[print_line]").is_err());
    assert!(run("[print_line \"a\" \"b\"]").is_err());
}

#[test]
fn read_line_takes_no_arguments() {
    assert!(run("[read_line 1]").is_err());
}

#[test]
fn echo_program_emits_the_read_line() {
    let (v, outs) = run_effect("[do [use line [read_line]] [print_line line]]", &["hello"]);
    assert_eq!(v, Value::Nil);
    assert_eq!(outs, vec!["hello".to_string()]);
}

#[test]
fn use_needs_an_effect_not_the_builtin_itself() {
    // `read_line` alone names the zero-argument builtin function; only the
    // call `[read_line]` yields the pending-read effect a `use` step needs.
    assert!(run("[do [use line read_line] [print_line line]]").is_err());
}

#[test]
fn pending_read_with_no_input_fails() {
    let io = match run("[read_line]") {
        Ok(Value::Io(io)) => io,
        other => panic!("expected an effect description, got {:?}", other),
    };
    let supply: Vec<Rc<Vec<char>>> = Vec::new();
    assert!(run_io(FUEL, &io, &supply, 0).is_err());
}

#[test]
fn then_sequences_two_effects() {
    let (v, outs) = run_effect("[then [print_line \"a\"] [print_line \"b\"]]", &[]);
    assert_eq!(v, Value::Nil);
    assert_eq!(outs, vec!["a".to_string(), "b".to_string()]);
}

#[test]
fn then_discards_the_first_result() {
    let (v, outs) = run_effect("[then [return 1] [return 2]]", &[]);
    assert_eq!(v, Value::Number(2));
    assert!(outs.is_empty());
}

#[test]
fn bind_threads_the_value() {
    let (v, outs) = run_effect("[bind [return 3] [fn [x] [return [+ x 1]]]]", &[]);
    assert_eq!(v, Value::Number(4));
    assert!(outs.is_empty());
}

#[test]
fn bind_continuation_must_yield_an_effect() {
    assert!(run("[bind [return 3] [fn [x] x]]").is_err());
}

#[test]
fn then_and_bind_check_their_operands() {
    assert!(run("[then 1 [return 2]]").is_err());
    assert!(run("[then [return 1] 2]").is_err());
    assert!(run("[bind 1 [fn [x] [return x]]]").is_err());
    assert!(run("[bind [return 1] 2]").is_err());
}

#[test]
fn do_block_needs_forms() {
    assert!(run("[do]").is_err());
}

#[test]
fn do_let_and_use_cannot_come_last() {
    assert!(run("[do [let x 1]]").is_err());
    assert!(run("[do [use x read_line]]").is_err());
}

#[test]
fn do_let_binds_purely() {
    let (v, outs) = run_effect("[do [let x 3] [return x]]", &[]);
    assert_eq!(v, Value::Number(3));
    assert!(outs.is_empty());
}

#[test]
fn do_of_pure_returns_is_direct_computation() {
    // A desugared sequence of pure `return` steps computes exactly the value
    // the last step returns.
    let (v, outs) = run_effect("[do [return 1] [return 2] [return 3]]", &[]);
    assert_eq!(v, Value::Number(3));
    assert!(outs.is_empty());
}

#[test]
fn do_use_feeds_each_read() {
    let src = "[do [use a [read_line]] [use b [read_line]] [then [print_line b] [print_line a]]]";
    let (v, outs) = run_effect(src, &["one", "two"]);
    assert_eq!(v, Value::Nil);
    assert_eq!(outs, vec!["two".to_string(), "one".to_string()]);
}

#[test]
fn do_form_must_be_an_effect() {
    assert!(run("[do 5]").is_err());
    assert!(run("[do [use x 5] [return x]]").is_err());
}

#[test]
fn then_on_done_is_the_second_effect() {
    let b = Rc::new(Io::PrintLine(line("x"), Rc::new(Io::Done(Value::Nil))));
    let r = io_then(&Io::Done(Value::Number(1)), Rc::clone(&b));
    assert_eq!(*r, *b);
}

#[test]
fn bind_on_done_applies_the_continuation() {
    let done = Io::Done(Value::Number(5));
    let ret = Function::Builtin(BuiltinFn::Return);
    let r = done.bind(FUEL, &ret).expect("bind should succeed");
    assert_eq!(*r, Io::Done(Value::Number(5)));
}

#[test]
fn composition_is_referentially_transparent() {
    // Composing the same descriptions twice yields structurally equal trees,
    // without running anything.
    let a = Io::ReadLine(Function::Builtin(BuiltinFn::Return));
    let b = Rc::new(Io::PrintLine(line("out"), Rc::new(Io::Done(Value::Nil))));
    let t1 = io_then(&a, Rc::clone(&b));
    let t2 = io_then(&a, Rc::clone(&b));
    assert_eq!(t1, t2);

    let f = Function::Builtin(BuiltinFn::Return);
    let b1 = a.bind(FUEL, &f).expect("bind should succeed");
    let b2 = a.bind(FUEL, &f).expect("bind should succeed");
    assert_eq!(b1, b2);
}

#[test]
fn run_io_reports_outputs_in_order() {
    let src = "[then [print_line \"1\"] [then [print_line \"2\"] [print_line \"3\"]]]";
    let (v, outs) = run_effect(src, &[]);
    assert_eq!(v, Value::Nil);
    assert_eq!(outs, vec!["1".to_string(), "2".to_string(), "3".to_string()]);
}
