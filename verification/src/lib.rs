//! The evaluation core of a minimal Lisp-like scripting language: a
//! tree-walking interpreter with lexical scoping, user-defined closures,
//! builtin macros, and a pure description of input/output effects that a thin
//! driver performs separately.
//!
//! Every executable function is specified against the step-indexed
//! definitional interpreter in [`semantics`]; the executable code returns
//! exactly what the model prescribes.

pub mod builtins;
pub mod eval;
pub mod io;
pub mod lexer;
pub mod parser;
pub mod scope;
pub mod semantics;
pub mod text;
pub mod value;
