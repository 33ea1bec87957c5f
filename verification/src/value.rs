//! The data model of the interpreter: values, callables, scopes, and
//! descriptions of deferred input/output effects.
//!
//! Everything here is immutable after construction and shared through `Rc`;
//! extending a scope or composing two effect descriptions always builds new
//! nodes and never touches existing ones.

use vstd::prelude::*;

use std::rc::Rc;

verus! {

/// The single error of the interpreter: the program is malformed, a name is
/// unbound, an operand has the wrong kind, or the effect driver ran out of
/// input. Evaluation aborts at the first error; there is no recovery.
#[derive(Debug, PartialEq, Eq)]
pub struct BadProgram;

/// The primitive functions of the builtin registry. They receive their
/// arguments already evaluated.
#[derive(Copy, Clone, Debug, PartialEq, Eq)]
pub enum BuiltinFn {
    Add,
    Sub,
    Mul,
    Div,
    Then,
    Bind,
    Return,
    ReadLine,
    PrintLine,
}

/// The builtin syntactic forms. They receive their argument forms unevaluated
/// together with the scope of the call site.
#[derive(Copy, Clone, Debug, PartialEq, Eq)]
pub enum BuiltinMacro {
    Block,
    Fn,
    Do,
}

/// A suffix of a shared list of forms: the elements of `list` from index
/// `start` on. Keeping the underlying list shared lets a closure or an effect
/// continuation hold on to the remaining forms without copying them.
#[derive(Debug, PartialEq)]
pub struct Forms {
    pub list: Rc<Vec<Value>>,
    pub start: usize,
}

/// A value of the language. Numbers are 64-bit signed integers; text is held
/// as shared character sequences. `List` doubles as syntax (the abstract
/// syntax tree is built from the first four variants) and as runtime data.
#[derive(Debug, PartialEq)]
pub enum Value {
    Number(i64),
    Str(Rc<Vec<char>>),
    Symbol(Rc<Vec<char>>),
    List(Rc<Vec<Value>>),
    Fn(Function),
    Macro(BuiltinMacro),
    Io(Rc<Io>),
    Nil,
}

/// A callable value. Besides builtins and user closures there are three
/// continuation shapes, produced when composing effect descriptions: they
/// record the data a deferred call needs instead of capturing it in a Rust
/// closure.
#[derive(Debug, PartialEq)]
pub enum Function {
    Builtin(BuiltinFn),
    User(Rc<UserFn>),
    /// Pending read continuation of `then(a, b)`: apply `first` to the read
    /// line, then sequence the resulting effect with `second`.
    ThenCont { first: Rc<Function>, second: Rc<Io> },
    /// Pending read continuation of `bind(a, f)`: apply `first` to the read
    /// line, then bind the resulting effect with `binder`.
    BindCont { first: Rc<Function>, binder: Rc<Function> },
    /// Continuation of a `use` step in a `do` block: bind `name` to the
    /// produced value in `scope` and expand the remaining forms `rest`.
    UseCont { scope: Rc<Scope>, name: Rc<Vec<char>>, rest: Forms },
}

/// A user-defined closure: the scope captured at its definition site, the
/// declared parameter list (distinct symbols), and the body forms.
#[derive(Debug, PartialEq)]
pub struct UserFn {
    pub scope: Rc<Scope>,
    pub params: Rc<Vec<Value>>,
    pub content: Forms,
}

/// A description of a deferred effectful computation; pure data until a
/// driver performs it. `ReadLine` waits for one line of input to hand to its
/// continuation; `PrintLine` emits one line and continues; `Done` carries the
/// final result.
#[derive(Debug, PartialEq)]
pub enum Io {
    ReadLine(Function),
    PrintLine(Rc<Vec<char>>, Rc<Io>),
    Done(Value),
}

/// A persistent chain of bindings. Extending a scope allocates one new node;
/// every closure that captured an older node keeps seeing exactly the
/// bindings it captured.
#[derive(Debug, PartialEq)]
pub enum Scope {
    Empty,
    Value { parent: Rc<Scope>, name: Rc<Vec<char>>, value: Value },
}

/// Outcome of the specification-level interpreter: a proper result, a failed
/// evaluation, or exhaustion of the step allowance.
pub enum Out<T> {
    Val(T),
    Fail,
    Spin,
}

/// The value an `Rc` shares: the specification-level view of the pointer.
pub open spec fn inner<T>(x: Rc<T>) -> T {
    *x
}

/// How an executable result relates to a specification outcome: a proper
/// value must be returned exactly, and both failure and exhaustion surface as
/// the one error.
pub open spec fn out_matches<T>(o: Out<T>, r: Result<T, BadProgram>) -> bool {
    match o {
        Out::Val(v) => r == Ok::<T, BadProgram>(v),
        Out::Fail => r is Err,
        Out::Spin => r is Err,
    }
}

impl Forms {
    /// The forms this suffix denotes.
    pub open spec fn items(self) -> Seq<Value> {
        if self.start <= self.list@.len() {
            self.list@.skip(self.start as int)
        } else {
            Seq::empty()
        }
    }

    /// All but the first remaining form.
    pub open spec fn next(self) -> Forms
        recommends
            self.items().len() > 0,
    {
        Forms { list: self.list, start: (self.start + 1) as usize }
    }

    pub fn len(&self) -> (n: usize)
        ensures
            n == self.items().len(),
    {
        if self.start <= self.list.len() {
            self.list.len() - self.start
        } else {
            0
        }
    }

    pub fn get(&self, i: usize) -> (v: &Value)
        requires
            i < self.items().len(),
        ensures
            *v == self.items()[i as int],
    {
        let list_ref: &Vec<Value> = &self.list;
        let n = list_ref.len();
        assert(self.start + i < n);
        &list_ref[self.start + i]
    }

    pub fn advance(&self) -> (r: Forms)
        requires
            self.items().len() > 0,
        ensures
            r == self.next(),
            r.start == self.start + 1,
            self.start < self.list@.len(),
    {
        let n = self.list.len();
        assert(self.start < n);
        Forms { list: Rc::clone(&self.list), start: self.start + 1 }
    }

    pub fn dup(&self) -> (r: Forms)
        ensures
            r == *self,
    {
        Forms { list: Rc::clone(&self.list), start: self.start }
    }
}

impl Value {
    /// A copy of this value, sharing all of its substructure.
    pub fn dup(&self) -> (r: Value)
        ensures
            r == *self,
    {
        match self {
            Value::Number(n) => Value::Number(*n),
            Value::Str(s) => Value::Str(Rc::clone(s)),
            Value::Symbol(s) => Value::Symbol(Rc::clone(s)),
            Value::List(l) => Value::List(Rc::clone(l)),
            Value::Fn(f) => Value::Fn(f.dup()),
            Value::Macro(m) => Value::Macro(*m),
            Value::Io(io) => Value::Io(Rc::clone(io)),
            Value::Nil => Value::Nil,
        }
    }
}

impl Function {
    /// A copy of this callable, sharing all of its substructure.
    pub fn dup(&self) -> (r: Function)
        ensures
            r == *self,
    {
        match self {
            Function::Builtin(b) => Function::Builtin(*b),
            Function::User(u) => Function::User(Rc::clone(u)),
            Function::ThenCont { first, second } => Function::ThenCont {
                first: Rc::clone(first),
                second: Rc::clone(second),
            },
            Function::BindCont { first, binder } => Function::BindCont {
                first: Rc::clone(first),
                binder: Rc::clone(binder),
            },
            Function::UseCont { scope, name, rest } => Function::UseCont {
                scope: Rc::clone(scope),
                name: Rc::clone(name),
                rest: rest.dup(),
            },
        }
    }
}

} // verus!
