//! Executable scope operations: persistent extension and name resolution,
//! together with the laws that make the persistent chain trustworthy for
//! closures.

use vstd::prelude::*;

use std::rc::Rc;

use crate::builtins;
use crate::semantics::{builtin_of, extend, lookup};
use crate::text::chars_eq;
use crate::value::{out_matches, BadProgram, Out, Scope, Value};

verus! {

impl Scope {
    /// Walk the binding chain from the most recent binding outward and return
    /// the value of the nearest binding of `name`; fall back to the builtin
    /// registry at the end of the chain; fail if the name is bound nowhere.
    pub fn resolve(&self, name: &Vec<char>) -> (r: Result<Value, BadProgram>)
        ensures
            out_matches(lookup(*self, name@), r),
        decreases *self,
    {
        match self {
            Scope::Empty => builtins::resolve(name),
            Scope::Value { parent, name: bound, value } => {
                if chars_eq(bound, name) {
                    Ok(value.dup())
                } else {
                    parent.resolve(name)
                }
            },
        }
    }

    /// A new scope consisting of one binding in front of `self`. Takes O(1):
    /// the existing chain is shared, and no live reference to it observes any
    /// change.
    pub fn with(self: Rc<Scope>, name: Rc<Vec<char>>, value: Value) -> (r: Rc<Scope>)
        ensures
            *r == extend(*self, name, value),
    {
        Rc::new(Scope::Value { parent: self, name, value })
    }
}

/// Binding a name makes lookups of that name in the extended scope return the
/// new value, even when an enclosing scope already bound it: the nearest
/// binding wins.
pub proof fn lemma_lookup_extended_same(s: Scope, name: Rc<Vec<char>>, v: Value)
    ensures
        lookup(extend(s, name, v), name@) == Out::<Value>::Val(v),
{
}

/// Binding one name changes the lookup of no other name: every other lookup
/// in the extended scope is answered exactly as in the scope it extends. In
/// particular a binding can shadow, never overwrite, and the scope that was
/// extended still answers every lookup as before, since it is shared
/// unchanged.
pub proof fn lemma_lookup_extended_other(s: Scope, name: Rc<Vec<char>>, v: Value, m: Seq<char>)
    requires
        m != name@,
    ensures
        lookup(extend(s, name, v), m) == lookup(s, m),
{
}

/// An empty chain answers every lookup from the builtin registry.
pub proof fn lemma_lookup_empty(name: Seq<char>)
    ensures
        lookup(Scope::Empty, name) == builtin_of(name),
{
}

} // verus!
