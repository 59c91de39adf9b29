//! Evaluation core of a small Lisp-family interpreter: a persistent,
//! structurally shared list type that doubles as the abstract syntax tree,
//! the tagged value type, and the evaluator that walks these structures
//! against a mutable environment, producing a value or a typed failure.
//!
//! The native behaviour of builtin callables and the application of
//! user-defined lambdas are supplied by the embedder through the [`host::Host`]
//! trait; everything else — list construction, iteration, folding, equality,
//! symbol resolution, and the call-dispatch policy — lives here and is
//! verified.

pub mod host;
pub mod list;
pub mod scope;
pub mod value;

pub use host::Host;
pub use list::{List, Cons, ListIter};
pub use scope::Scope;
pub use value::{Builtin, Lambda, RuntimeError, Value};
