//! A tree-walking evaluator for a small expression language.
//!
//! Programs arrive as an already-parsed expression tree. The evaluator
//! interprets a tree against a chain of lexically scoped environments and a
//! fixed table of built-in procedures, producing a value or a typed error.
//! Every step is specified by a mathematical interpreter (`eval::eval_spec`)
//! and the executable evaluator is proved to return exactly what it says.
//!
//! Design decisions, where more than one behaviour would be reasonable:
//! - An identifier that no enclosing scope binds evaluates to its own text as
//!   a string (the permissive policy), rather than failing; applying a value
//!   whose rendered text names a builtin dispatches to that builtin, which is
//!   what makes `Application(Identifier("add"), ...)` work.
//! - Scopes live in an arena indexed by handle and are shared by reference,
//!   so a closure's captured scope outlives the expression that created it,
//!   and an assignment is visible through every chain that reaches the
//!   binding's owning scope.
//! - `print` and `wait` record effects in order; the process boundary
//!   performs them once evaluation is over. Arithmetic wraps at the 64-bit
//!   boundary, and `div`/`mod` truncate towards zero, as machine arithmetic
//!   does.
//! - Evaluation depth is bounded by an explicit budget, as a native call
//!   stack would bound it; exhaustion reports `RecursionLimit`.

pub mod ast;
pub mod builtins;
pub mod env;
pub mod eval;
pub mod laws;
pub mod render;
pub mod strings;
pub mod value;

pub use ast::Expr;
pub use ast::SpecExpr;
pub use env::Effect;
pub use env::Environment;
pub use eval::evaluate;
pub use eval::run;
pub use render::render;
pub use value::Builtin;
pub use value::EvalError;
pub use value::SpecValue;
pub use value::Value;
