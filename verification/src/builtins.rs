//! The builtin registry and the primitive functions and macros.

use vstd::prelude::*;

use std::rc::Rc;

use crate::eval::{eval_block, eval_do_block};
use crate::semantics::{builtin_of, builtin_s, macro_s, params_ok};
use crate::text::{chars_eq, sym_is};
use crate::value::{
    out_matches, BadProgram, BuiltinFn, BuiltinMacro, Forms, Function, Io, Scope, UserFn, Value,
};

verus! {

/// Look a name up in the fixed builtin registry. This is the root of every
/// scope chain, so any builtin can be shadowed by a user binding of the same
/// name.
pub fn resolve(name: &Vec<char>) -> (r: Result<Value, BadProgram>)
    ensures
        out_matches(builtin_of(name@), r),
{
    if sym_is(name, "+") {
        Ok(Value::Fn(Function::Builtin(BuiltinFn::Add)))
    } else if sym_is(name, "-") {
        Ok(Value::Fn(Function::Builtin(BuiltinFn::Sub)))
    } else if sym_is(name, "*") {
        Ok(Value::Fn(Function::Builtin(BuiltinFn::Mul)))
    } else if sym_is(name, "/") {
        Ok(Value::Fn(Function::Builtin(BuiltinFn::Div)))
    } else if sym_is(name, "then") {
        Ok(Value::Fn(Function::Builtin(BuiltinFn::Then)))
    } else if sym_is(name, "bind") {
        Ok(Value::Fn(Function::Builtin(BuiltinFn::Bind)))
    } else if sym_is(name, "return") {
        Ok(Value::Fn(Function::Builtin(BuiltinFn::Return)))
    } else if sym_is(name, "read_line") {
        Ok(Value::Fn(Function::Builtin(BuiltinFn::ReadLine)))
    } else if sym_is(name, "print_line") {
        Ok(Value::Fn(Function::Builtin(BuiltinFn::PrintLine)))
    } else if sym_is(name, "block") {
        Ok(Value::Macro(BuiltinMacro::Block))
    } else if sym_is(name, "do") {
        Ok(Value::Macro(BuiltinMacro::Do))
    } else if sym_is(name, "fn") {
        Ok(Value::Macro(BuiltinMacro::Fn))
    } else {
        Err(BadProgram)
    }
}


impl BuiltinFn {
    /// Apply a primitive function to already evaluated arguments. Arithmetic
    /// takes exactly two numbers and wraps on overflow; division fails on a
    /// zero divisor and on the one overflowing quotient. The effect
    /// primitives only build or compose effect descriptions.
    pub fn call(self, fuel: u64, args: Vec<Value>) -> (r: Result<Value, BadProgram>)
        ensures
            out_matches(builtin_s(fuel as nat, self, args@), r),
        decreases fuel,
    {
        if fuel == 0 {
            return Err(BadProgram);
        }
        let f = fuel - 1;
        match self {
            BuiltinFn::Add => {
                if args.len() != 2 {
                    return Err(BadProgram);
                }
                match (&args[0], &args[1]) {
                    (Value::Number(x), Value::Number(y)) => Ok(
                        Value::Number(x.wrapping_add(*y)),
                    ),
                    _ => Err(BadProgram),
                }
            },
            BuiltinFn::Sub => {
                if args.len() != 2 {
                    return Err(BadProgram);
                }
                match (&args[0], &args[1]) {
                    (Value::Number(x), Value::Number(y)) => Ok(
                        Value::Number(x.wrapping_sub(*y)),
                    ),
                    _ => Err(BadProgram),
                }
            },
            BuiltinFn::Mul => {
                if args.len() != 2 {
                    return Err(BadProgram);
                }
                match (&args[0], &args[1]) {
                    (Value::Number(x), Value::Number(y)) => Ok(
                        Value::Number(x.wrapping_mul(*y)),
                    ),
                    _ => Err(BadProgram),
                }
            },
            BuiltinFn::Div => {
                if args.len() != 2 {
                    return Err(BadProgram);
                }
                match (&args[0], &args[1]) {
                    (Value::Number(x), Value::Number(y)) => match x.checked_div(*y) {
                        Some(q) => Ok(Value::Number(q)),
                        None => Err(BadProgram),
                    },
                    _ => Err(BadProgram),
                }
            },
            BuiltinFn::Then => {
                if args.len() != 2 {
                    return Err(BadProgram);
                }
                match (&args[0], &args[1]) {
                    (Value::Io(a), Value::Io(b)) => Ok(Value::Io(crate::io::io_then(a, Rc::clone(b)))),
                    _ => Err(BadProgram),
                }
            },
            BuiltinFn::Bind => {
                if args.len() != 2 {
                    return Err(BadProgram);
                }
                match (&args[0], &args[1]) {
                    (Value::Io(a), Value::Fn(g)) => match a.bind(f, g) {
                        Ok(io) => Ok(Value::Io(io)),
                        Err(e) => Err(e),
                    },
                    _ => Err(BadProgram),
                }
            },
            BuiltinFn::Return => {
                if args.len() != 1 {
                    return Err(BadProgram);
                }
                let mut args = args;
                let v = args.remove(0);
                Ok(Value::Io(Rc::new(Io::Done(v))))
            },
            BuiltinFn::ReadLine => {
                if args.len() != 0 {
                    return Err(BadProgram);
                }
                Ok(Value::Io(Rc::new(Io::ReadLine(Function::Builtin(BuiltinFn::Return)))))
            },
            BuiltinFn::PrintLine => {
                if args.len() != 1 {
                    return Err(BadProgram);
                }
                match &args[0] {
                    Value::Str(line) => Ok(
                        Value::Io(
                            Rc::new(
                                Io::PrintLine(Rc::clone(line), Rc::new(Io::Done(Value::Nil))),
                            ),
                        ),
                    ),
                    _ => Err(BadProgram),
                }
            },
        }
    }
}

/// Check that a parameter list consists of symbols with pairwise distinct
/// names; closures with a malformed parameter list are rejected when they are
/// constructed, not when they are called.
pub fn check_params(params: &Vec<Value>) -> (r: bool)
    ensures
        r == params_ok(params@),
{
    let n = params.len();
    let mut i: usize = 0;
    while i < n
        invariant
            n == params@.len(),
            i <= n,
            forall|k: int| 0 <= k < i ==> params@[k] is Symbol,
            forall|a: int, b: int|
                0 <= a < b < i ==> crate::semantics::param_name(params@[a])
                    != crate::semantics::param_name(params@[b]),
        decreases n - i,
    {
        match &params[i] {
            Value::Symbol(nm) => {
                let mut j: usize = 0;
                while j < i
                    invariant
                        n == params@.len(),
                        i < n,
                        j <= i,
                        params@[i as int] matches Value::Symbol(m) && m@ == nm@,
                        forall|k: int| 0 <= k < i ==> params@[k] is Symbol,
                        forall|k: int|
                            0 <= k < j ==> crate::semantics::param_name(params@[k]) != nm@,
                    decreases i - j,
                {
                    match &params[j] {
                        Value::Symbol(other) => {
                            if chars_eq(other, nm) {
                                return false;
                            }
                        },
                        _ => {
                            proof {
                                assert(false);
                            }
                            return false;
                        },
                    }
                    j = j + 1;
                }
            },
            _ => {
                return false;
            },
        }
        i = i + 1;
    }
    true
}

impl BuiltinMacro {
    /// Apply a builtin macro to the unevaluated argument forms at the
    /// caller's scope: `block` evaluates them as a block in a nested scope,
    /// `do` expands them to one composed effect description, and `fn` builds
    /// a closure from a parameter list of distinct symbols followed by at
    /// least one body form, capturing the defining scope by reference.
    pub fn call(self, fuel: u64, scope: &Rc<Scope>, content: &Forms) -> (r: Result<
        Value,
        BadProgram,
    >)
        ensures
            out_matches(macro_s(fuel as nat, **scope, self, *content), r),
        decreases fuel,
    {
        if fuel == 0 {
            return Err(BadProgram);
        }
        let f = fuel - 1;
        match self {
            BuiltinMacro::Block => eval_block(f, Rc::clone(scope), content),
            BuiltinMacro::Do => match eval_do_block(f, scope, content) {
                Ok(io) => Ok(Value::Io(io)),
                Err(e) => Err(e),
            },
            BuiltinMacro::Fn => {
                if content.len() < 2 {
                    return Err(BadProgram);
                }
                match content.get(0) {
                    Value::List(ps) => {
                        if check_params(ps) {
                            Ok(
                                Value::Fn(
                                    Function::User(
                                        Rc::new(
                                            UserFn {
                                                scope: Rc::clone(scope),
                                                params: Rc::clone(ps),
                                                content: content.advance(),
                                            },
                                        ),
                                    ),
                                ),
                            )
                        } else {
                            Err(BadProgram)
                        }
                    },
                    _ => Err(BadProgram),
                }
            },
        }
    }
}

} // verus!
