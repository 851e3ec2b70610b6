//! The failures of an evaluation.

use vstd::prelude::*;

verus! {

/// Why an evaluation failed.
#[derive(Clone, Copy, Debug, PartialEq, Eq, Structural)]
pub enum ErrorKind {
    /// A name is bound in no frame.
    UnboundName,
    /// The value called is neither a lambda nor a native function.
    NotCallable,
    /// A lambda was called with a number of arguments other than that of its parameters.
    ArityMismatch,
    /// The operands of an addition are not two integers or two strings.
    TypeMismatch,
    /// The sum of two integers does not fit the integer type.
    ArithmeticOverflow,
    /// The operator is one that the evaluator does not compute.
    UnsupportedOperator,
    /// Lambda calls are nested deeper than the evaluation was allowed to go.
    DepthExceeded,
}

/// A failed evaluation: the reason, and the source line of the expression that failed.
#[derive(Clone, Copy, Debug, PartialEq, Eq, Structural)]
pub struct RuntimeError {
    pub kind: ErrorKind,
    pub line_number: usize,
}

} // verus!
