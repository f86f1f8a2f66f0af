//! A small interpreter.  A hand-written parser, built from verified
//! scanning and combinator utilities, turns source text into an abstract
//! syntax tree, and a tree-walking evaluator runs that tree against a
//! lexically scoped chain of environments.  The grammar and the evaluation
//! semantics are stated once, as specification-level functions over
//! character sequences and scope views, and every executable function is
//! proved to implement them.

pub mod ast;
pub mod env;
pub mod eval;
pub mod laws;
pub mod parse;
pub mod utils;
pub mod val;
