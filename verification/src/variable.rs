//! The values of the language, and the native calls that an evaluation hands to its
//! host.

use vstd::prelude::*;
use crate::ast::{clone_lexes, clone_names, lexes_view, names_view, Statement, LEX};

verus! {

/// A value of the language.
#[derive(Debug, PartialEq, Eq)]
pub enum Variable {
    /// A user-defined function: its parameter names and its statements. It holds no
    /// environment.
    Lamda { args: Vec<String>, value: Vec<LEX> },
    /// A native function, named by the number under which the host knows it.
    Rusty(usize),
    Int(i32),
    Str(String),
    Void,
}

/// Mathematical model of a [`Variable`].
pub enum Value {
    Lambda { params: Seq<Seq<char>>, body: Seq<Statement> },
    Native(usize),
    Int(i32),
    Str(Seq<char>),
    Void,
}

impl View for Variable {
    type V = Value;

    open spec fn view(&self) -> Value {
        match self {
            Variable::Lamda { args, value } => Value::Lambda {
                params: names_view(args@),
                body: lexes_view(value@),
            },
            Variable::Rusty(native) => Value::Native(*native),
            Variable::Int(n) => Value::Int(*n),
            Variable::Str(s) => Value::Str(s@),
            Variable::Void => Value::Void,
        }
    }
}

impl Clone for Variable {
    /// A deep copy: it has the same model and shares nothing with the value copied.
    fn clone(&self) -> (copy: Self)
        ensures
            copy@ == self@,
    {
        match self {
            Variable::Lamda { args, value } => Variable::Lamda {
                args: clone_names(args),
                value: clone_lexes(value),
            },
            Variable::Rusty(native) => Variable::Rusty(*native),
            Variable::Int(n) => Variable::Int(*n),
            Variable::Str(s) => Variable::Str(s.clone()),
            Variable::Void => Variable::Void,
        }
    }
}

/// A call of a native function that an evaluation has decided on, for the host to carry
/// out: the number under which the host knows the function, and the argument values.
#[derive(Debug, PartialEq, Eq)]
pub struct NativeCall {
    pub native: usize,
    pub args: Vec<Variable>,
}

/// Mathematical model of a [`NativeCall`].
pub struct Invocation {
    pub native: usize,
    pub args: Seq<Value>,
}

/// The models of a list of values, in order.
pub open spec fn values_view(values: Seq<Variable>) -> Seq<Value> {
    Seq::new(values.len(), |i: int| values[i]@)
}

impl View for NativeCall {
    type V = Invocation;

    open spec fn view(&self) -> Invocation {
        Invocation { native: self.native, args: values_view(self.args@) }
    }
}

/// The models of a list of native calls, in order.
pub open spec fn calls_view(calls: Seq<NativeCall>) -> Seq<Invocation> {
    Seq::new(calls.len(), |i: int| calls[i]@)
}

} // verus!
