//! The mathematical model of evaluation: a step-indexed definitional
//! interpreter written entirely in specification mode.
//!
//! Every function threads a `fuel` allowance and spends one unit on entry;
//! `Out::Spin` reports that the allowance ran out. The executable interpreter
//! mirrors these definitions one for one, so its contracts can state exact
//! equality with this model.

use vstd::prelude::*;

use std::rc::Rc;

use crate::value::{inner, BuiltinFn, BuiltinMacro, Forms, Function, Io, Out, Scope, UserFn, Value};

verus! {

/// The fixed builtin registry, consulted when a name is bound in no enclosing
/// scope. Any of these names can be shadowed by a user binding.
pub open spec fn builtin_of(name: Seq<char>) -> Out<Value> {
    if name == "+"@ {
        Out::Val(Value::Fn(Function::Builtin(BuiltinFn::Add)))
    } else if name == "-"@ {
        Out::Val(Value::Fn(Function::Builtin(BuiltinFn::Sub)))
    } else if name == "*"@ {
        Out::Val(Value::Fn(Function::Builtin(BuiltinFn::Mul)))
    } else if name == "/"@ {
        Out::Val(Value::Fn(Function::Builtin(BuiltinFn::Div)))
    } else if name == "then"@ {
        Out::Val(Value::Fn(Function::Builtin(BuiltinFn::Then)))
    } else if name == "bind"@ {
        Out::Val(Value::Fn(Function::Builtin(BuiltinFn::Bind)))
    } else if name == "return"@ {
        Out::Val(Value::Fn(Function::Builtin(BuiltinFn::Return)))
    } else if name == "read_line"@ {
        Out::Val(Value::Fn(Function::Builtin(BuiltinFn::ReadLine)))
    } else if name == "print_line"@ {
        Out::Val(Value::Fn(Function::Builtin(BuiltinFn::PrintLine)))
    } else if name == "block"@ {
        Out::Val(Value::Macro(BuiltinMacro::Block))
    } else if name == "do"@ {
        Out::Val(Value::Macro(BuiltinMacro::Do))
    } else if name == "fn"@ {
        Out::Val(Value::Macro(BuiltinMacro::Fn))
    } else {
        Out::Fail
    }
}

/// Name resolution: walk the binding chain from the most recent binding
/// outward; the nearest binding wins. An exhausted chain falls back to the
/// builtin registry; a name absent from both fails.
pub open spec fn lookup(scope: Scope, name: Seq<char>) -> Out<Value>
    decreases scope,
{
    match scope {
        Scope::Empty => builtin_of(name),
        Scope::Value { parent, name: bound, value } => if bound@ == name {
            Out::Val(value)
        } else {
            lookup(*parent, name)
        },
    }
}

/// One new binding in front of an existing scope. The old scope is shared,
/// never modified.
pub open spec fn extend(scope: Scope, name: Rc<Vec<char>>, value: Value) -> Scope {
    Scope::Value { parent: Rc::new(scope), name, value }
}

/// Recognize the shape `(tag <symbol> <expr>)`, yielding the symbol's name
/// and the expression.
pub open spec fn binding_form(v: Value, tag: Seq<char>) -> Option<(Rc<Vec<char>>, Value)> {
    match v {
        Value::List(l) => if l@.len() == 3 {
            match (l@[0], l@[1]) {
                (Value::Symbol(t), Value::Symbol(n)) => if t@ == tag {
                    Some((n, l@[2]))
                } else {
                    None
                },
                _ => None,
            }
        } else {
            None
        },
        _ => None,
    }
}

/// Every element is a symbol.
pub open spec fn all_symbols(params: Seq<Value>) -> bool {
    forall|i: int| 0 <= i < params.len() ==> params[i] is Symbol
}

/// The name of a parameter symbol.
pub open spec fn param_name(v: Value) -> Seq<char> {
    match v {
        Value::Symbol(n) => n@,
        _ => Seq::empty(),
    }
}

/// A well-formed parameter list: all symbols, all distinct.
pub open spec fn params_ok(params: Seq<Value>) -> bool {
    &&& all_symbols(params)
    &&& (forall|i: int, j: int|
        0 <= i < j < params.len() ==> param_name(params[i]) != param_name(params[j]))
}

/// Bind each parameter name to the corresponding argument, left to right.
pub open spec fn bind_params(scope: Scope, params: Seq<Value>, args: Seq<Value>) -> Scope
    recommends
        params.len() == args.len(),
        all_symbols(params),
    decreases params.len(),
{
    if params.len() == 0 || args.len() == 0 {
        scope
    } else {
        match params[0] {
            Value::Symbol(n) => bind_params(
                extend(scope, n, args[0]),
                params.drop_first(),
                args.drop_first(),
            ),
            _ => scope,
        }
    }
}

/// Sequencing of two effect descriptions, discarding the first one's result:
/// every `Done` leaf of `a` is replaced by `b`. A pending read defers the
/// rewrite into a continuation; no function is ever applied here, so this is
/// total and needs no fuel.
pub open spec fn then_s(a: Io, b: Io) -> Io
    decreases a,
{
    match a {
        Io::ReadLine(k) => Io::ReadLine(
            Function::ThenCont { first: Rc::new(k), second: Rc::new(b) },
        ),
        Io::PrintLine(line, next) => Io::PrintLine(line, Rc::new(then_s(*next, b))),
        Io::Done(_) => b,
    }
}

/// Evaluation of one expression in a scope.
pub open spec fn eval_s(fuel: nat, scope: Scope, input: Value) -> Out<Value>
    decreases fuel,
{
    if fuel == 0 {
        Out::Spin
    } else {
        let f = (fuel - 1) as nat;
        match input {
            Value::Number(_) => Out::Val(input),
            Value::Str(_) => Out::Val(input),
            Value::Symbol(n) => lookup(scope, n@),
            Value::List(l) => if l@.len() == 0 {
                Out::Fail
            } else {
                match eval_s(f, scope, l@[0]) {
                    Out::Val(callable) => call_s(
                        f,
                        scope,
                        callable,
                        Forms { list: l, start: 1 },
                    ),
                    Out::Fail => Out::Fail,
                    Out::Spin => Out::Spin,
                }
            },
            _ => Out::Fail,
        }
    }
}

/// Evaluation of a sequence of argument forms, left to right.
pub open spec fn eval_args_s(fuel: nat, scope: Scope, args: Seq<Value>) -> Out<Seq<Value>>
    decreases fuel,
{
    if fuel == 0 {
        Out::Spin
    } else {
        let f = (fuel - 1) as nat;
        if args.len() == 0 {
            Out::Val(Seq::empty())
        } else {
            match eval_s(f, scope, args[0]) {
                Out::Val(v) => match eval_args_s(f, scope, args.drop_first()) {
                    Out::Val(rest) => Out::Val(rest.insert(0, v)),
                    Out::Fail => Out::Fail,
                    Out::Spin => Out::Spin,
                },
                Out::Fail => Out::Fail,
                Out::Spin => Out::Spin,
            }
        }
    }
}

/// Call dispatch on an evaluated head: a macro receives the raw argument
/// forms and the caller's scope; a function receives its arguments eagerly
/// evaluated, left to right; anything else is not callable.
pub open spec fn call_s(fuel: nat, scope: Scope, callable: Value, args: Forms) -> Out<Value>
    decreases fuel,
{
    if fuel == 0 {
        Out::Spin
    } else {
        let f = (fuel - 1) as nat;
        match callable {
            Value::Macro(m) => macro_s(f, scope, m, args),
            Value::Fn(func) => match eval_args_s(f, scope, args.items()) {
                Out::Val(vals) => apply_s(f, func, vals),
                Out::Fail => Out::Fail,
                Out::Spin => Out::Spin,
            },
            _ => Out::Fail,
        }
    }
}

/// Application of a callable to already evaluated arguments.
pub open spec fn apply_s(fuel: nat, func: Function, args: Seq<Value>) -> Out<Value>
    decreases fuel,
{
    if fuel == 0 {
        Out::Spin
    } else {
        let f = (fuel - 1) as nat;
        match func {
            Function::Builtin(b) => builtin_s(f, b, args),
            Function::User(u) => user_s(f, *u, args),
            Function::ThenCont { first, second } => if args.len() != 1 {
                Out::Fail
            } else {
                match apply_s(f, *first, args) {
                    Out::Val(Value::Io(io)) => Out::Val(
                        Value::Io(Rc::new(then_s(*io, *second))),
                    ),
                    Out::Val(_) => Out::Fail,
                    Out::Fail => Out::Fail,
                    Out::Spin => Out::Spin,
                }
            },
            Function::BindCont { first, binder } => if args.len() != 1 {
                Out::Fail
            } else {
                match apply_s(f, *first, args) {
                    Out::Val(Value::Io(io)) => match bind_s(f, *io, *binder) {
                        Out::Val(io2) => Out::Val(Value::Io(Rc::new(io2))),
                        Out::Fail => Out::Fail,
                        Out::Spin => Out::Spin,
                    },
                    Out::Val(_) => Out::Fail,
                    Out::Fail => Out::Fail,
                    Out::Spin => Out::Spin,
                }
            },
            Function::UseCont { scope, name, rest } => if args.len() != 1 {
                Out::Fail
            } else {
                match do_s(f, extend(*scope, name, args[0]), rest) {
                    Out::Val(io) => Out::Val(Value::Io(Rc::new(io))),
                    Out::Fail => Out::Fail,
                    Out::Spin => Out::Spin,
                }
            },
        }
    }
}

/// The primitive functions. Arithmetic is binary over numbers and wraps on
/// overflow; division fails on a zero divisor and on the one overflowing
/// quotient. The effect primitives build or compose effect descriptions
/// without performing anything.
pub open spec fn builtin_s(fuel: nat, b: BuiltinFn, args: Seq<Value>) -> Out<Value>
    decreases fuel,
{
    if fuel == 0 {
        Out::Spin
    } else {
        let f = (fuel - 1) as nat;
        match b {
            BuiltinFn::Add => if args.len() == 2 {
                match (args[0], args[1]) {
                    (Value::Number(x), Value::Number(y)) => Out::Val(
                        Value::Number(x.wrapping_add(y)),
                    ),
                    _ => Out::Fail,
                }
            } else {
                Out::Fail
            },
            BuiltinFn::Sub => if args.len() == 2 {
                match (args[0], args[1]) {
                    (Value::Number(x), Value::Number(y)) => Out::Val(
                        Value::Number(x.wrapping_sub(y)),
                    ),
                    _ => Out::Fail,
                }
            } else {
                Out::Fail
            },
            BuiltinFn::Mul => if args.len() == 2 {
                match (args[0], args[1]) {
                    (Value::Number(x), Value::Number(y)) => Out::Val(
                        Value::Number(x.wrapping_mul(y)),
                    ),
                    _ => Out::Fail,
                }
            } else {
                Out::Fail
            },
            BuiltinFn::Div => if args.len() == 2 {
                match (args[0], args[1]) {
                    (Value::Number(x), Value::Number(y)) => match x.checked_div(y) {
                        Some(q) => Out::Val(Value::Number(q)),
                        None => Out::Fail,
                    },
                    _ => Out::Fail,
                }
            } else {
                Out::Fail
            },
            BuiltinFn::Then => if args.len() == 2 {
                match (args[0], args[1]) {
                    (Value::Io(a), Value::Io(b2)) => Out::Val(
                        Value::Io(Rc::new(then_s(*a, *b2))),
                    ),
                    _ => Out::Fail,
                }
            } else {
                Out::Fail
            },
            BuiltinFn::Bind => if args.len() == 2 {
                match (args[0], args[1]) {
                    (Value::Io(a), Value::Fn(g)) => match bind_s(f, *a, g) {
                        Out::Val(io) => Out::Val(Value::Io(Rc::new(io))),
                        Out::Fail => Out::Fail,
                        Out::Spin => Out::Spin,
                    },
                    _ => Out::Fail,
                }
            } else {
                Out::Fail
            },
            BuiltinFn::Return => if args.len() == 1 {
                Out::Val(Value::Io(Rc::new(Io::Done(args[0]))))
            } else {
                Out::Fail
            },
            BuiltinFn::ReadLine => if args.len() == 0 {
                Out::Val(
                    Value::Io(Rc::new(Io::ReadLine(Function::Builtin(BuiltinFn::Return)))),
                )
            } else {
                Out::Fail
            },
            BuiltinFn::PrintLine => if args.len() == 1 {
                match args[0] {
                    Value::Str(line) => Out::Val(
                        Value::Io(Rc::new(Io::PrintLine(line, Rc::new(Io::Done(Value::Nil))))),
                    ),
                    _ => Out::Fail,
                }
            } else {
                Out::Fail
            },
        }
    }
}

/// A user closure call: the argument count must equal the declared parameter
/// count exactly; each argument is then bound to its parameter by extending
/// the captured scope, and the body runs as a block in that extended scope.
pub open spec fn user_s(fuel: nat, u: UserFn, args: Seq<Value>) -> Out<Value>
    decreases fuel,
{
    if fuel == 0 {
        Out::Spin
    } else {
        let f = (fuel - 1) as nat;
        if args.len() != u.params@.len() {
            Out::Fail
        } else if !all_symbols(u.params@) {
            Out::Fail
        } else {
            block_s(f, bind_params(*u.scope, u.params@, args), u.content)
        }
    }
}

/// The builtin macros: `block` evaluates its forms as a block; `do` expands
/// its forms to one composed effect description; `fn` constructs a closure
/// after checking that the parameter list is a list of distinct symbols.
pub open spec fn macro_s(fuel: nat, scope: Scope, m: BuiltinMacro, forms: Forms) -> Out<Value>
    decreases fuel,
{
    if fuel == 0 {
        Out::Spin
    } else {
        let f = (fuel - 1) as nat;
        match m {
            BuiltinMacro::Block => block_s(f, scope, forms),
            BuiltinMacro::Do => match do_s(f, scope, forms) {
                Out::Val(io) => Out::Val(Value::Io(Rc::new(io))),
                Out::Fail => Out::Fail,
                Out::Spin => Out::Spin,
            },
            BuiltinMacro::Fn => if forms.items().len() < 2 {
                Out::Fail
            } else {
                match forms.items()[0] {
                    Value::List(ps) => if params_ok(ps@) {
                        Out::Val(
                            Value::Fn(
                                Function::User(
                                    Rc::new(
                                        UserFn {
                                            scope: Rc::new(scope),
                                            params: ps,
                                            content: forms.next(),
                                        },
                                    ),
                                ),
                            ),
                        )
                    } else {
                        Out::Fail
                    },
                    _ => Out::Fail,
                }
            },
        }
    }
}

/// A block: every form but the last must be a `(let <symbol> <expr>)`
/// binding, evaluated against the scope accumulated so far; the block's value
/// is the final form's value in the fully extended scope.
pub open spec fn block_s(fuel: nat, scope: Scope, forms: Forms) -> Out<Value>
    decreases fuel,
{
    if fuel == 0 {
        Out::Spin
    } else {
        let f = (fuel - 1) as nat;
        if forms.items().len() == 0 {
            Out::Fail
        } else if forms.items().len() == 1 {
            eval_s(f, scope, forms.items()[0])
        } else {
            match binding_form(forms.items()[0], "let"@) {
                Some((name, expr)) => match eval_s(f, scope, expr) {
                    Out::Val(v) => block_s(f, extend(scope, name, v), forms.next()),
                    Out::Fail => Out::Fail,
                    Out::Spin => Out::Spin,
                },
                None => Out::Fail,
            }
        }
    }
}

/// Expansion of a `do` block into one composed effect description. A
/// `(let <symbol> <expr>)` step binds a pure value; a `(use <symbol> <expr>)`
/// step binds the eventual result of an effect through a continuation; any
/// other form must evaluate to an effect, sequenced before the rest. Neither
/// `let` nor `use` may be the final form, and no effect is performed here.
pub open spec fn do_s(fuel: nat, scope: Scope, forms: Forms) -> Out<Io>
    decreases fuel,
{
    if fuel == 0 {
        Out::Spin
    } else {
        let f = (fuel - 1) as nat;
        if forms.items().len() == 0 {
            Out::Fail
        } else {
            match binding_form(forms.items()[0], "let"@) {
                Some((name, expr)) => if forms.items().len() < 2 {
                    Out::Fail
                } else {
                    match eval_s(f, scope, expr) {
                        Out::Val(v) => do_s(f, extend(scope, name, v), forms.next()),
                        Out::Fail => Out::Fail,
                        Out::Spin => Out::Spin,
                    }
                },
                None => match binding_form(forms.items()[0], "use"@) {
                    Some((name, expr)) => if forms.items().len() < 2 {
                        Out::Fail
                    } else {
                        match eval_s(f, scope, expr) {
                            Out::Val(Value::Io(io)) => bind_s(
                                f,
                                *io,
                                Function::UseCont {
                                    scope: Rc::new(scope),
                                    name,
                                    rest: forms.next(),
                                },
                            ),
                            Out::Val(_) => Out::Fail,
                            Out::Fail => Out::Fail,
                            Out::Spin => Out::Spin,
                        }
                    },
                    None => match eval_s(f, scope, forms.items()[0]) {
                        Out::Val(Value::Io(io)) => if forms.items().len() >= 2 {
                            match do_s(f, scope, forms.next()) {
                                Out::Val(rest) => Out::Val(then_s(*io, rest)),
                                Out::Fail => Out::Fail,
                                Out::Spin => Out::Spin,
                            }
                        } else {
                            Out::Val(*io)
                        },
                        Out::Val(_) => Out::Fail,
                        Out::Fail => Out::Fail,
                        Out::Spin => Out::Spin,
                    },
                },
            }
        }
    }
}

/// Monadic composition: run `a`; when it finishes with a value, apply `g` to
/// that value and continue with the effect `g` yields. A continuation that
/// yields anything but an effect description fails.
pub open spec fn bind_s(fuel: nat, a: Io, g: Function) -> Out<Io>
    decreases fuel,
{
    if fuel == 0 {
        Out::Spin
    } else {
        let f = (fuel - 1) as nat;
        match a {
            Io::ReadLine(k) => Out::Val(
                Io::ReadLine(Function::BindCont { first: Rc::new(k), binder: Rc::new(g) }),
            ),
            Io::PrintLine(line, next) => match bind_s(f, *next, g) {
                Out::Val(n2) => Out::Val(Io::PrintLine(line, Rc::new(n2))),
                Out::Fail => Out::Fail,
                Out::Spin => Out::Spin,
            },
            Io::Done(v) => match apply_s(f, g, seq![v]) {
                Out::Val(Value::Io(io)) => Out::Val(*io),
                Out::Val(_) => Out::Fail,
                Out::Fail => Out::Fail,
                Out::Spin => Out::Spin,
            },
        }
    }
}

/// Performing an effect description against a fixed supply of input lines:
/// the model of the executable driver. Returns the final value and the lines
/// emitted, in order; a pending read with no input left fails.
pub open spec fn run_s(fuel: nat, io: Io, inputs: Seq<Rc<Vec<char>>>) -> Out<
    (Value, Seq<Rc<Vec<char>>>),
>
    decreases fuel,
{
    if fuel == 0 {
        Out::Spin
    } else {
        let f = (fuel - 1) as nat;
        match io {
            Io::Done(v) => Out::Val((v, Seq::empty())),
            Io::PrintLine(line, next) => match run_s(f, *next, inputs) {
                Out::Val((v, outs)) => Out::Val((v, outs.insert(0, line))),
                Out::Fail => Out::Fail,
                Out::Spin => Out::Spin,
            },
            Io::ReadLine(k) => if inputs.len() == 0 {
                Out::Fail
            } else {
                match apply_s(f, k, seq![Value::Str(inputs[0])]) {
                    Out::Val(Value::Io(next)) => run_s(f, *next, inputs.drop_first()),
                    Out::Val(_) => Out::Fail,
                    Out::Fail => Out::Fail,
                    Out::Spin => Out::Spin,
                }
            },
        }
    }
}



/// The step allowance is only an allowance: whenever evaluation completes
/// (with a value or a failure) under some allowance, any larger allowance
/// gives exactly the same answer. The lemmas below prove this for every
/// function of the model by mutual induction.
pub proof fn lemma_eval_mono(f1: nat, f2: nat, scope: Scope, input: Value)
    requires
        f1 <= f2,
        !(eval_s(f1, scope, input) is Spin),
    ensures
        eval_s(f2, scope, input) == eval_s(f1, scope, input),
    decreases f1,
{
    let g1 = (f1 - 1) as nat;
    let g2 = (f2 - 1) as nat;
    if input is List {
        let l = input->List_0;
        if l@.len() != 0 {
            let hd = l@[0];
            if !(eval_s(g1, scope, hd) is Spin) {
                lemma_eval_mono(g1, g2, scope, hd);
            }
            let r = eval_s(g1, scope, hd);
            if r is Val {
                let fm = Forms { list: l, start: 1 };
                if !(call_s(g1, scope, r->Val_0, fm) is Spin) {
                    lemma_call_mono(g1, g2, scope, r->Val_0, fm);
                }
            }
        }
    }
}

/// See `lemma_eval_mono`.
pub proof fn lemma_call_mono(f1: nat, f2: nat, scope: Scope, callable: Value, args: Forms)
    requires
        f1 <= f2,
        !(call_s(f1, scope, callable, args) is Spin),
    ensures
        call_s(f2, scope, callable, args) == call_s(f1, scope, callable, args),
    decreases f1,
{
    let g1 = (f1 - 1) as nat;
    let g2 = (f2 - 1) as nat;
    if callable is Macro {
        if !(macro_s(g1, scope, callable->Macro_0, args) is Spin) {
            lemma_macro_mono(g1, g2, scope, callable->Macro_0, args);
        }
    }
    if callable is Fn {
        if !(eval_args_s(g1, scope, args.items()) is Spin) {
            lemma_eval_args_mono(g1, g2, scope, args.items());
        }
        let r = eval_args_s(g1, scope, args.items());
        if r is Val {
            if !(apply_s(g1, callable->Fn_0, r->Val_0) is Spin) {
                lemma_apply_mono(g1, g2, callable->Fn_0, r->Val_0);
            }
        }
    }
}

/// See `lemma_eval_mono`.
pub proof fn lemma_eval_args_mono(f1: nat, f2: nat, scope: Scope, args: Seq<Value>)
    requires
        f1 <= f2,
        !(eval_args_s(f1, scope, args) is Spin),
    ensures
        eval_args_s(f2, scope, args) == eval_args_s(f1, scope, args),
    decreases f1,
{
    let g1 = (f1 - 1) as nat;
    let g2 = (f2 - 1) as nat;
    if args.len() != 0 {
        if !(eval_s(g1, scope, args[0]) is Spin) {
            lemma_eval_mono(g1, g2, scope, args[0]);
        }
        if eval_s(g1, scope, args[0]) is Val {
            if !(eval_args_s(g1, scope, args.drop_first()) is Spin) {
                lemma_eval_args_mono(g1, g2, scope, args.drop_first());
            }
        }
    }
}

/// See `lemma_eval_mono`.
pub proof fn lemma_apply_mono(f1: nat, f2: nat, func: Function, args: Seq<Value>)
    requires
        f1 <= f2,
        !(apply_s(f1, func, args) is Spin),
    ensures
        apply_s(f2, func, args) == apply_s(f1, func, args),
    decreases f1,
{
    let g1 = (f1 - 1) as nat;
    let g2 = (f2 - 1) as nat;
    match func {
        Function::Builtin(b) => {
            if !(builtin_s(g1, b, args) is Spin) {
                lemma_builtin_mono(g1, g2, b, args);
            }
        },
        Function::User(u) => {
            if !(user_s(g1, inner(u), args) is Spin) {
                lemma_user_mono(g1, g2, inner(u), args);
            }
        },
        Function::ThenCont { first, second } => {
            if args.len() == 1 {
                if !(apply_s(g1, inner(first), args) is Spin) {
                    lemma_apply_mono(g1, g2, inner(first), args);
                }
            }
        },
        Function::BindCont { first, binder } => {
            if args.len() == 1 {
                if !(apply_s(g1, inner(first), args) is Spin) {
                    lemma_apply_mono(g1, g2, inner(first), args);
                }
                let r = apply_s(g1, inner(first), args);
                if r is Val && r->Val_0 is Io {
                    if !(bind_s(g1, inner(r->Val_0->Io_0), inner(binder)) is Spin) {
                        lemma_bind_mono(g1, g2, inner(r->Val_0->Io_0), inner(binder));
                    }
                }
            }
        },
        Function::UseCont { scope, name, rest } => {
            if args.len() == 1 {
                if !(do_s(g1, extend(inner(scope), name, args[0]), rest) is Spin) {
                    lemma_do_mono(g1, g2, extend(inner(scope), name, args[0]), rest);
                }
            }
        },
    }
}

/// See `lemma_eval_mono`.
pub proof fn lemma_builtin_mono(f1: nat, f2: nat, b: BuiltinFn, args: Seq<Value>)
    requires
        f1 <= f2,
        !(builtin_s(f1, b, args) is Spin),
    ensures
        builtin_s(f2, b, args) == builtin_s(f1, b, args),
    decreases f1,
{
    let g1 = (f1 - 1) as nat;
    let g2 = (f2 - 1) as nat;
    if b is Bind && args.len() == 2 {
        if args[0] is Io && args[1] is Fn {
            if !(bind_s(g1, inner(args[0]->Io_0), args[1]->Fn_0) is Spin) {
                lemma_bind_mono(g1, g2, inner(args[0]->Io_0), args[1]->Fn_0);
            }
        }
    }
}

/// See `lemma_eval_mono`.
pub proof fn lemma_user_mono(f1: nat, f2: nat, u: UserFn, args: Seq<Value>)
    requires
        f1 <= f2,
        !(user_s(f1, u, args) is Spin),
    ensures
        user_s(f2, u, args) == user_s(f1, u, args),
    decreases f1,
{
    let g1 = (f1 - 1) as nat;
    let g2 = (f2 - 1) as nat;
    if args.len() == u.params@.len() && all_symbols(u.params@) {
        if !(block_s(g1, bind_params(inner(u.scope), u.params@, args), u.content) is Spin) {
            lemma_block_mono(g1, g2, bind_params(inner(u.scope), u.params@, args), u.content);
        }
    }
}

/// See `lemma_eval_mono`.
pub proof fn lemma_macro_mono(f1: nat, f2: nat, scope: Scope, m: BuiltinMacro, forms: Forms)
    requires
        f1 <= f2,
        !(macro_s(f1, scope, m, forms) is Spin),
    ensures
        macro_s(f2, scope, m, forms) == macro_s(f1, scope, m, forms),
    decreases f1,
{
    let g1 = (f1 - 1) as nat;
    let g2 = (f2 - 1) as nat;
    if m is Block {
        if !(block_s(g1, scope, forms) is Spin) {
            lemma_block_mono(g1, g2, scope, forms);
        }
    }
    if m is Do {
        if !(do_s(g1, scope, forms) is Spin) {
            lemma_do_mono(g1, g2, scope, forms);
        }
    }
}

/// See `lemma_eval_mono`.
pub proof fn lemma_block_mono(f1: nat, f2: nat, scope: Scope, forms: Forms)
    requires
        f1 <= f2,
        !(block_s(f1, scope, forms) is Spin),
    ensures
        block_s(f2, scope, forms) == block_s(f1, scope, forms),
    decreases f1,
{
    let g1 = (f1 - 1) as nat;
    let g2 = (f2 - 1) as nat;
    if forms.items().len() == 1 {
        if !(eval_s(g1, scope, forms.items()[0]) is Spin) {
            lemma_eval_mono(g1, g2, scope, forms.items()[0]);
        }
    } else if forms.items().len() > 1 {
        match binding_form(forms.items()[0], "let"@) {
            Some((name, expr)) => {
                if !(eval_s(g1, scope, expr) is Spin) {
                    lemma_eval_mono(g1, g2, scope, expr);
                }
                let r = eval_s(g1, scope, expr);
                if r is Val {
                    if !(block_s(g1, extend(scope, name, r->Val_0), forms.next()) is Spin) {
                        lemma_block_mono(g1, g2, extend(scope, name, r->Val_0), forms.next());
                    }
                }
            },
            None => {},
        }
    }
}

/// See `lemma_eval_mono`.
pub proof fn lemma_do_mono(f1: nat, f2: nat, scope: Scope, forms: Forms)
    requires
        f1 <= f2,
        !(do_s(f1, scope, forms) is Spin),
    ensures
        do_s(f2, scope, forms) == do_s(f1, scope, forms),
    decreases f1,
{
    let g1 = (f1 - 1) as nat;
    let g2 = (f2 - 1) as nat;
    if forms.items().len() != 0 {
        let first = forms.items()[0];
        match binding_form(first, "let"@) {
            Some((name, expr)) => {
                if forms.items().len() >= 2 {
                    if !(eval_s(g1, scope, expr) is Spin) {
                        lemma_eval_mono(g1, g2, scope, expr);
                    }
                    let r = eval_s(g1, scope, expr);
                    if r is Val {
                        if !(do_s(g1, extend(scope, name, r->Val_0), forms.next()) is Spin) {
                            lemma_do_mono(g1, g2, extend(scope, name, r->Val_0), forms.next());
                        }
                    }
                }
            },
            None => {
                match binding_form(first, "use"@) {
                    Some((name, expr)) => {
                        if forms.items().len() >= 2 {
                            if !(eval_s(g1, scope, expr) is Spin) {
                                lemma_eval_mono(g1, g2, scope, expr);
                            }
                            let r = eval_s(g1, scope, expr);
                            if r is Val && r->Val_0 is Io {
                                let cont = Function::UseCont {
                                    scope: Rc::new(scope),
                                    name,
                                    rest: forms.next(),
                                };
                                if !(bind_s(g1, inner(r->Val_0->Io_0), cont) is Spin) {
                                    lemma_bind_mono(g1, g2, inner(r->Val_0->Io_0), cont);
                                }
                            }
                        }
                    },
                    None => {
                        if !(eval_s(g1, scope, first) is Spin) {
                            lemma_eval_mono(g1, g2, scope, first);
                        }
                        let r = eval_s(g1, scope, first);
                        if r is Val && r->Val_0 is Io {
                            if forms.items().len() >= 2 {
                                if !(do_s(g1, scope, forms.next()) is Spin) {
                                    lemma_do_mono(g1, g2, scope, forms.next());
                                }
                            }
                        }
                    },
                }
            },
        }
    }
}

/// See `lemma_eval_mono`.
pub proof fn lemma_bind_mono(f1: nat, f2: nat, a: Io, g: Function)
    requires
        f1 <= f2,
        !(bind_s(f1, a, g) is Spin),
    ensures
        bind_s(f2, a, g) == bind_s(f1, a, g),
    decreases f1,
{
    let g1 = (f1 - 1) as nat;
    let g2 = (f2 - 1) as nat;
    if a is PrintLine {
        if !(bind_s(g1, inner(a->PrintLine_1), g) is Spin) {
            lemma_bind_mono(g1, g2, inner(a->PrintLine_1), g);
        }
    }
    if a is Done {
        if !(apply_s(g1, g, seq![a->Done_0]) is Spin) {
            lemma_apply_mono(g1, g2, g, seq![a->Done_0]);
        }
    }
}

/// See `lemma_eval_mono`: running an effect description against a fixed
/// input supply is likewise stable under a larger allowance.
pub proof fn lemma_run_mono(f1: nat, f2: nat, io: Io, inputs: Seq<Rc<Vec<char>>>)
    requires
        f1 <= f2,
        !(run_s(f1, io, inputs) is Spin),
    ensures
        run_s(f2, io, inputs) == run_s(f1, io, inputs),
    decreases f1,
{
    let g1 = (f1 - 1) as nat;
    let g2 = (f2 - 1) as nat;
    if io is PrintLine {
        if !(run_s(g1, inner(io->PrintLine_1), inputs) is Spin) {
            lemma_run_mono(g1, g2, inner(io->PrintLine_1), inputs);
        }
    }
    if io is ReadLine && inputs.len() != 0 {
        let k = io->ReadLine_0;
        if !(apply_s(g1, k, seq![Value::Str(inputs[0])]) is Spin) {
            lemma_apply_mono(g1, g2, k, seq![Value::Str(inputs[0])]);
        }
        let r = apply_s(g1, k, seq![Value::Str(inputs[0])]);
        if r is Val && r->Val_0 is Io {
            if !(run_s(g1, inner(r->Val_0->Io_0), inputs.drop_first()) is Spin) {
                lemma_run_mono(g1, g2, inner(r->Val_0->Io_0), inputs.drop_first());
            }
        }
    }
}

} // verus!
