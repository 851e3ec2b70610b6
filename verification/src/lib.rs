//! The evaluator of a small dynamically typed language: values, the environment of
//! frames, and the evaluation of statements and expressions, each with its model and
//! its contract.

pub mod ast;
pub mod error;
pub mod laws;
pub mod runtime;
pub mod semantics;
pub mod variable;
pub mod vars;

pub use ast::{Def, Expr, Node, JOINT, LEX};
pub use error::{ErrorKind, RuntimeError};
pub use runtime::{add_variables, eval, eval_def, eval_expr, prelude, start, CALL_DEPTH, STDIO};
pub use variable::{NativeCall, Variable};
pub use vars::Vars;
