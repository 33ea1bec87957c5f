//! The recursive evaluator and call dispatch.
//!
//! Every function takes an explicit `fuel` allowance mirroring the
//! step-indexed model in [`crate::semantics`] and spends one unit on entry;
//! when the allowance runs out the evaluation aborts with the one error. Each
//! contract states that the function returns exactly what the model
//! prescribes.

use vstd::prelude::*;

use std::rc::Rc;

use crate::io::io_out_matches;
use crate::semantics::{
    apply_s, bind_params, binding_form, block_s, call_s, do_s, eval_args_s, eval_s, extend,
    user_s,
};
use crate::text::sym_is;
use crate::value::{out_matches, BadProgram, Forms, Function, Io, Out, Scope, UserFn, Value};

verus! {

/// Evaluate one expression: numbers and text evaluate to themselves, a symbol
/// to the value it is bound to, and a non-empty list to the result of calling
/// its evaluated head on the remaining elements. Anything else is malformed.
pub fn eval(fuel: u64, scope: &Rc<Scope>, input: &Value) -> (r: Result<Value, BadProgram>)
    ensures
        out_matches(eval_s(fuel as nat, **scope, *input), r),
    decreases fuel,
{
    if fuel == 0 {
        return Err(BadProgram);
    }
    let f = fuel - 1;
    match input {
        Value::Number(_) => Ok(input.dup()),
        Value::Str(_) => Ok(input.dup()),
        Value::Symbol(n) => scope.resolve(n),
        Value::List(l) => {
            let inner: &Vec<Value> = l;
            if inner.len() == 0 {
                Err(BadProgram)
            } else {
                let head = eval(f, scope, &inner[0])?;
                let args = Forms { list: Rc::clone(l), start: 1 };
                call(f, scope, &head, &args)
            }
        },
        _ => Err(BadProgram),
    }
}

/// Dispatch a call: a macro receives the raw argument forms and the caller's
/// scope; a function receives its arguments evaluated eagerly, left to right,
/// in the caller's scope; anything else is not callable.
pub fn call(fuel: u64, scope: &Rc<Scope>, callable: &Value, args: &Forms) -> (r: Result<
    Value,
    BadProgram,
>)
    ensures
        out_matches(call_s(fuel as nat, **scope, *callable, *args), r),
    decreases fuel,
{
    if fuel == 0 {
        return Err(BadProgram);
    }
    let f = fuel - 1;
    match callable {
        Value::Macro(m) => m.call(f, scope, args),
        Value::Fn(func) => {
            let vals = eval_args(f, scope, args)?;
            func.call(f, vals)
        },
        _ => Err(BadProgram),
    }
}

/// Evaluate a sequence of argument forms, left to right, failing at the first
/// form that fails.
pub fn eval_args(fuel: u64, scope: &Rc<Scope>, args: &Forms) -> (r: Result<Vec<Value>, BadProgram>)
    ensures
        match eval_args_s(fuel as nat, **scope, args.items()) {
            Out::Val(vs) => r matches Ok(vals) && vals@ == vs,
            Out::Fail => r is Err,
            Out::Spin => r is Err,
        },
    decreases fuel,
{
    if fuel == 0 {
        return Err(BadProgram);
    }
    let f = fuel - 1;
    if args.len() == 0 {
        Ok(Vec::new())
    } else {
        let v = eval(f, scope, args.get(0))?;
        let rest_forms = args.advance();
        proof {
            assert(args.items().len() > 0);
            assert(args.start < args.list@.len());
            assert(rest_forms.start == args.start + 1);
            assert(rest_forms.items() =~= args.items().drop_first());
        }
        let mut rest = eval_args(f, scope, &rest_forms)?;
        rest.insert(0, v);
        Ok(rest)
    }
}

/// Recognize the binding shape `(tag <symbol> <expr>)` and hand back the
/// bound name and the expression.
pub fn as_binding(v: &Value, tag: &str) -> (r: Option<(Rc<Vec<char>>, Value)>)
    ensures
        r == binding_form(*v, tag@),
{
    match v {
        Value::List(l) => {
            let inner: &Vec<Value> = l;
            if inner.len() == 3 {
                match (&inner[0], &inner[1]) {
                    (Value::Symbol(t), Value::Symbol(n)) => {
                        if sym_is(t, tag) {
                            Some((Rc::clone(n), inner[2].dup()))
                        } else {
                            None
                        }
                    },
                    _ => None,
                }
            } else {
                None
            }
        },
        _ => None,
    }
}

/// Evaluate a block: the form sequence must be non-empty, every form but the
/// last must be a `(let <symbol> <expr>)` binding extending the scope seen by
/// the forms after it, and the block's value is the last form's value in the
/// fully extended scope.
pub fn eval_block(fuel: u64, scope: Rc<Scope>, forms: &Forms) -> (r: Result<Value, BadProgram>)
    ensures
        out_matches(block_s(fuel as nat, *scope, *forms), r),
    decreases fuel,
{
    if fuel == 0 {
        return Err(BadProgram);
    }
    let f = fuel - 1;
    let n = forms.len();
    if n == 0 {
        Err(BadProgram)
    } else if n == 1 {
        eval(f, &scope, forms.get(0))
    } else {
        match as_binding(forms.get(0), "let") {
            Some((name, expr)) => {
                let v = eval(f, &scope, &expr)?;
                eval_block(f, scope.with(name, v), &forms.advance())
            },
            None => Err(BadProgram),
        }
    }
}

/// Expand a `do` block into one composed effect description, performing
/// nothing: `(let <symbol> <expr>)` binds a pure value for the remaining
/// forms, `(use <symbol> <expr>)` binds the eventual result of an effect
/// through a continuation, and any other form must evaluate to an effect that
/// is sequenced before the rest. Neither `let` nor `use` may come last.
pub fn eval_do_block(fuel: u64, scope: &Rc<Scope>, forms: &Forms) -> (r: Result<
    Rc<Io>,
    BadProgram,
>)
    ensures
        io_out_matches(do_s(fuel as nat, **scope, *forms), r),
    decreases fuel,
{
    if fuel == 0 {
        return Err(BadProgram);
    }
    let f = fuel - 1;
    let n = forms.len();
    if n == 0 {
        return Err(BadProgram);
    }
    let first = forms.get(0);
    match as_binding(first, "let") {
        Some((name, expr)) => {
            if n < 2 {
                return Err(BadProgram);
            }
            let v = eval(f, scope, &expr)?;
            let s2 = Rc::clone(scope).with(name, v);
            eval_do_block(f, &s2, &forms.advance())
        },
        None => match as_binding(first, "use") {
            Some((name, expr)) => {
                if n < 2 {
                    return Err(BadProgram);
                }
                let v = eval(f, scope, &expr)?;
                match v {
                    Value::Io(io) => {
                        let cont = Function::UseCont {
                            scope: Rc::clone(scope),
                            name,
                            rest: forms.advance(),
                        };
                        io.bind(f, &cont)
                    },
                    _ => Err(BadProgram),
                }
            },
            None => {
                let v = eval(f, scope, first)?;
                match v {
                    Value::Io(io) => {
                        if n >= 2 {
                            let rest_io = eval_do_block(f, scope, &forms.advance())?;
                            Ok(crate::io::io_then(&io, rest_io))
                        } else {
                            Ok(io)
                        }
                    },
                    _ => Err(BadProgram),
                }
            },
        },
    }
}

/// Evaluate a whole program in the empty root scope (whose lookups fall back
/// to the builtin registry).
pub fn eval_program(fuel: u64, content: &Value) -> (r: Result<Value, BadProgram>)
    ensures
        out_matches(eval_s(fuel as nat, Scope::Empty, *content), r),
{
    let root: Rc<Scope> = Rc::new(Scope::Empty);
    eval(fuel, &root, content)
}

impl Function {
    /// Apply this callable to already evaluated arguments.
    pub fn call(&self, fuel: u64, args: Vec<Value>) -> (r: Result<Value, BadProgram>)
        ensures
            out_matches(apply_s(fuel as nat, *self, args@), r),
        decreases fuel,
    {
        if fuel == 0 {
            return Err(BadProgram);
        }
        let f = fuel - 1;
        match self {
            Function::Builtin(b) => b.call(f, args),
            Function::User(u) => u.call(f, args),
            Function::ThenCont { first, second } => {
                if args.len() != 1 {
                    return Err(BadProgram);
                }
                let res = Function::call(first, f, args)?;
                match res {
                    Value::Io(io) => Ok(Value::Io(crate::io::io_then(&io, Rc::clone(second)))),
                    _ => Err(BadProgram),
                }
            },
            Function::BindCont { first, binder } => {
                if args.len() != 1 {
                    return Err(BadProgram);
                }
                let res = Function::call(first, f, args)?;
                match res {
                    Value::Io(io) => match io.bind(f, binder) {
                        Ok(io2) => Ok(Value::Io(io2)),
                        Err(e) => Err(e),
                    },
                    _ => Err(BadProgram),
                }
            },
            Function::UseCont { scope, name, rest } => {
                if args.len() != 1 {
                    return Err(BadProgram);
                }
                let mut args = args;
                let v = args.remove(0);
                let s2 = Rc::clone(scope).with(Rc::clone(name), v);
                let io = eval_do_block(f, &s2, rest)?;
                Ok(Value::Io(io))
            },
        }
    }
}

impl UserFn {
    /// Call this closure: the argument count must equal the declared
    /// parameter count exactly, each argument is bound to its parameter by
    /// extending the captured scope (one fresh node per parameter, in
    /// declaration order), and the body is evaluated as a block in that
    /// extended scope.
    pub fn call(&self, fuel: u64, args: Vec<Value>) -> (r: Result<Value, BadProgram>)
        ensures
            out_matches(user_s(fuel as nat, *self, args@), r),
        decreases fuel,
    {
        if fuel == 0 {
            return Err(BadProgram);
        }
        let f = fuel - 1;
        let params: &Vec<Value> = &self.params;
        if args.len() != params.len() {
            return Err(BadProgram);
        }
        let n = params.len();
        let mut scope: Rc<Scope> = Rc::clone(&self.scope);
        let mut i: usize = 0;
        proof {
            assert(params@.skip(0) =~= params@);
            assert(args@.skip(0) =~= args@);
        }
        while i < n
            invariant
                n == params@.len(),
                n == args@.len(),
                params@ == self.params@,
                i <= n,
                forall|k: int| 0 <= k < i ==> params@[k] is Symbol,
                bind_params(*self.scope, params@, args@) == bind_params(
                    *scope,
                    params@.skip(i as int),
                    args@.skip(i as int),
                ),
            decreases n - i,
        {
            match &params[i] {
                Value::Symbol(nm) => {
                    proof {
                        assert(params@.skip(i as int).drop_first() =~= params@.skip(i as int + 1));
                        assert(args@.skip(i as int).drop_first() =~= args@.skip(i as int + 1));
                        assert(params@.skip(i as int)[0] == params@[i as int]);
                        assert(args@.skip(i as int)[0] == args@[i as int]);
                    }
                    scope = scope.with(Rc::clone(nm), args[i].dup());
                },
                _ => {
                    return Err(BadProgram);
                },
            }
            i = i + 1;
        }
        proof {
            assert(params@.skip(n as int) =~= Seq::<Value>::empty());
            assert(args@.skip(n as int) =~= Seq::<Value>::empty());
        }
        eval_block(f, scope, &self.content)
    }
}


/// Calling a closure declared with `n` parameters on any other number of
/// arguments fails outright, whatever the closure, the arguments and the
/// (positive) step allowance: no parameter is ever partially bound.
pub proof fn lemma_arity_mismatch(fuel: nat, u: UserFn, args: Seq<Value>)
    requires
        fuel > 0,
        args.len() != u.params@.len(),
    ensures
        user_s(fuel, u, args) == Out::<Value>::Fail,
{
}

/// Inside a block, a leading `(let name expr)` statement makes every later
/// form see the binding: the rest of the block is evaluated in the extended
/// scope. The scope that was extended is itself a value that does not change,
/// so a sibling block started from it sees nothing of the binding.
pub proof fn lemma_block_sees_binding(
    fuel: nat,
    scope: Scope,
    forms: Forms,
    name: Rc<Vec<char>>,
    expr: Value,
    v: Value,
)
    requires
        fuel > 0,
        forms.items().len() >= 2,
        binding_form(forms.items()[0], "let"@) == Some((name, expr)),
        eval_s((fuel - 1) as nat, scope, expr) == Out::<Value>::Val(v),
    ensures
        block_s(fuel, scope, forms) == block_s(
            (fuel - 1) as nat,
            extend(scope, name, v),
            forms.next(),
        ),
{
}


} // verus!
