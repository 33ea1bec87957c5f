//! Composition and pure execution of effect descriptions.
//!
//! `then` and `bind` are pure: they rewrite effect trees and never perform an
//! effect. `run_io` performs a description against a fixed supply of input
//! lines, which makes effect execution testable without touching real
//! input/output; a driver over real channels only has to feed lines in and
//! print lines out.

use vstd::prelude::*;

use std::rc::Rc;

use crate::semantics::{apply_s, bind_s, run_s, then_s};
use crate::value::{BadProgram, Function, Io, Out, Value};

verus! {

/// How an executable effect result relates to a specification outcome.
pub open spec fn io_out_matches(o: Out<Io>, r: Result<Rc<Io>, BadProgram>) -> bool {
    match o {
        Out::Val(io) => r == Ok::<Rc<Io>, BadProgram>(Rc::new(io)),
        Out::Fail => r is Err,
        Out::Spin => r is Err,
    }
}

/// How an executable run result relates to a specification outcome.
pub open spec fn run_out_matches(
    o: Out<(Value, Seq<Rc<Vec<char>>>)>,
    r: Result<(Value, Vec<Rc<Vec<char>>>), BadProgram>,
) -> bool {
    match o {
        Out::Val(p) => r matches Ok(q) && q.0 == p.0 && q.1@ == p.1,
        Out::Fail => r is Err,
        Out::Spin => r is Err,
    }
}

/// Sequence `other` after `io`, discarding `io`'s result: every `Done` leaf
/// of `io` passes control to `other` instead. Pure and total; nothing is
/// performed here.
pub fn io_then(io: &Io, other: Rc<Io>) -> (r: Rc<Io>)
    ensures
        *r == then_s(*io, *other),
    decreases *io,
{
    match io {
        Io::ReadLine(k) => Rc::new(
            Io::ReadLine(Function::ThenCont { first: Rc::new(k.dup()), second: other }),
        ),
        Io::PrintLine(line, next) => Rc::new(
            Io::PrintLine(Rc::clone(line), io_then(next, other)),
        ),
        Io::Done(_) => other,
    }
}

impl Io {
    /// Sequence `other` after `self`; see [`io_then`].
    pub fn then(&self, other: Rc<Io>) -> (r: Rc<Io>)
        ensures
            *r == then_s(*self, *other),
    {
        io_then(self, other)
    }

    /// Monadic composition: when `self` finishes with a value, apply `g` to
    /// it and continue with the effect `g` yields. Fails if the continuation
    /// yields anything but an effect description. Pure; nothing is performed.
    pub fn bind(&self, fuel: u64, g: &Function) -> (r: Result<Rc<Io>, BadProgram>)
        ensures
            io_out_matches(bind_s(fuel as nat, *self, *g), r),
        decreases fuel,
    {
        if fuel == 0 {
            return Err(BadProgram);
        }
        let f = fuel - 1;
        match self {
            Io::ReadLine(k) => Ok(
                Rc::new(
                    Io::ReadLine(
                        Function::BindCont { first: Rc::new(k.dup()), binder: Rc::new(g.dup()) },
                    ),
                ),
            ),
            Io::PrintLine(line, next) => {
                let n2 = next.bind(f, g)?;
                Ok(Rc::new(Io::PrintLine(Rc::clone(line), n2)))
            },
            Io::Done(v) => {
                let mut args: Vec<Value> = Vec::new();
                args.push(v.dup());
                proof {
                    assert(args@ =~= seq![*v]);
                }
                let res = Function::call(g, f, args)?;
                match res {
                    Value::Io(io) => Ok(io),
                    _ => Err(BadProgram),
                }
            },
        }
    }
}

/// Perform an effect description against the input lines `inputs[at..]`,
/// without any real input/output: pending reads take the next line from the
/// supply, and emitted lines are collected in order. Returns the final value
/// with the emitted lines; fails when a read finds the supply exhausted or
/// when a continuation misbehaves.
pub fn run_io(fuel: u64, io: &Io, inputs: &Vec<Rc<Vec<char>>>, at: usize) -> (r: Result<
    (Value, Vec<Rc<Vec<char>>>),
    BadProgram,
>)
    requires
        at <= inputs@.len(),
    ensures
        run_out_matches(run_s(fuel as nat, *io, inputs@.skip(at as int)), r),
    decreases fuel,
{
    if fuel == 0 {
        return Err(BadProgram);
    }
    let f = fuel - 1;
    match io {
        Io::Done(v) => Ok((v.dup(), Vec::new())),
        Io::PrintLine(line, next) => {
            let pair = run_io(f, next, inputs, at)?;
            let (v, mut outs) = pair;
            outs.insert(0, Rc::clone(line));
            Ok((v, outs))
        },
        Io::ReadLine(k) => {
            if at == inputs.len() {
                return Err(BadProgram);
            }
            let mut args: Vec<Value> = Vec::new();
            args.push(Value::Str(Rc::clone(&inputs[at])));
            proof {
                assert(inputs@.skip(at as int)[0] == inputs@[at as int]);
                assert(args@ =~= seq![Value::Str(inputs@.skip(at as int)[0])]);
            }
            let res = Function::call(k, f, args)?;
            match res {
                Value::Io(next) => {
                    proof {
                        assert(inputs@.skip(at as int).drop_first() =~= inputs@.skip(
                            at as int + 1,
                        ));
                    }
                    run_io(f, &next, inputs, at + 1)
                },
                _ => Err(BadProgram),
            }
        },
    }
}

/// Sequencing after a finished effect is the second effect itself:
/// `then(Done(v), b)` is exactly `b`.
pub proof fn lemma_then_done(v: Value, b: Io)
    ensures
        then_s(Io::Done(v), b) == b,
{
}

/// Binding a continuation to a finished effect applies the continuation to
/// the carried value: when `g` applied to `v` yields the effect `io`,
/// `bind(Done(v), g)` is exactly that effect.
pub proof fn lemma_bind_done(fuel: nat, v: Value, g: Function, io: Rc<Io>)
    requires
        fuel > 0,
        apply_s((fuel - 1) as nat, g, seq![v]) == Out::<Value>::Val(Value::Io(io)),
    ensures
        bind_s(fuel, Io::Done(v), g) == Out::<Io>::Val(*io),
{
}

/// Running a finished effect performs nothing: it emits no line, consumes no
/// input, and yields the carried value. With `lemma_then_done` and
/// `lemma_bind_done` this makes a composition of effects that only carry pure
/// values equivalent to the direct value computation.
pub proof fn lemma_run_done(fuel: nat, v: Value, inputs: Seq<Rc<Vec<char>>>)
    requires
        fuel > 0,
    ensures
        run_s(fuel, Io::Done(v), inputs) == Out::<(Value, Seq<Rc<Vec<char>>>)>::Val(
            (v, Seq::empty()),
        ),
{
}

/// Composing effect descriptions is referentially transparent: the result of
/// `then` is the function `then_s` of the two inputs and nothing else, so two
/// calls on equal inputs return structurally equal trees. (`Io::then`'s
/// contract says each call returns exactly `then_s` of its inputs.)
pub proof fn lemma_then_deterministic(a: Io, b: Io, r1: Io, r2: Io)
    requires
        r1 == then_s(a, b),
        r2 == then_s(a, b),
    ensures
        r1 == r2,
{
}

/// Like `lemma_then_deterministic`, for `bind` at equal fuel: the
/// specification outcome is a function of the inputs, so two runs of
/// `Io::bind` on equal inputs return equal trees.
pub proof fn lemma_bind_deterministic(fuel: nat, a: Io, g: Function, r1: Out<Io>, r2: Out<Io>)
    requires
        r1 == bind_s(fuel, a, g),
        r2 == bind_s(fuel, a, g),
    ensures
        r1 == r2,
{
}

} // verus!
