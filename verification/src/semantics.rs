//! The meaning of statements and expressions, as functions from a state to an outcome.

use vstd::prelude::*;
use crate::ast::{Statement, ValueExpr, JOINT};
use crate::error::{ErrorKind, RuntimeError};
use crate::variable::{Invocation, Value};
use crate::vars::{env_insert, env_lookup, Env};

verus! {

/// What an evaluation works on: the environment, and the native calls that have been
/// decided on so far, the oldest first.
pub struct State {
    pub env: Env,
    pub calls: Seq<Invocation>,
}

/// What an evaluation leaves behind: its result, and the state after it. A failed
/// evaluation keeps the bindings and the native calls that were made before it failed.
pub struct Outcome<T> {
    pub result: Result<T, RuntimeError>,
    pub state: State,
}

/// The outcome of an evaluation that succeeded with `value`.
pub open spec fn done<T>(value: T, state: State) -> Outcome<T> {
    Outcome { result: Ok(value), state }
}

/// The outcome of an evaluation that failed at `line` for the reason `kind`.
pub open spec fn failed<T>(kind: ErrorKind, line: usize, state: State) -> Outcome<T> {
    Outcome { result: Err(RuntimeError { kind, line_number: line }), state }
}

/// The same outcome without its value.
pub open spec fn discard(outcome: Outcome<Value>) -> Outcome<()> {
    match outcome.result {
        Ok(_) => done((), outcome.state),
        Err(error) => Outcome { result: Err(error), state: outcome.state },
    }
}

/// The state with `name` bound to `value` in the newest frame.
pub open spec fn bound(state: State, name: Seq<char>, value: Value) -> State {
    State { env: env_insert(state.env, name, value), calls: state.calls }
}

/// The state with one more native call, after those decided on before.
pub open spec fn called(state: State, native: usize, args: Seq<Value>) -> State {
    State { env: state.env, calls: state.calls.push(Invocation { native, args }) }
}

/// The sum of two values: of two integers their sum, where it fits the integer type; of
/// two strings the first followed by the second.
pub open spec fn add_values(lhs: Value, rhs: Value, line: usize) -> Result<Value, RuntimeError> {
    match (lhs, rhs) {
        (Value::Int(a), Value::Int(b)) => if i32::MIN <= a + b <= i32::MAX {
            Ok(Value::Int((a + b) as i32))
        } else {
            Err(RuntimeError { kind: ErrorKind::ArithmeticOverflow, line_number: line })
        },
        (Value::Str(a), Value::Str(b)) => Ok(Value::Str(a + b)),
        _ => Err(RuntimeError { kind: ErrorKind::TypeMismatch, line_number: line }),
    }
}

/// What a binary operator makes of two values. Only addition is computed.
pub open spec fn apply_joint(joint: JOINT, lhs: Value, rhs: Value, line: usize) -> Result<
    Value,
    RuntimeError,
> {
    match joint {
        JOINT::ADD => add_values(lhs, rhs, line),
        _ => Err(RuntimeError { kind: ErrorKind::UnsupportedOperator, line_number: line }),
    }
}

/// The environment after the parameters from position `from` on have been bound, in order,
/// to the arguments at their positions, each in the newest frame.
pub open spec fn bind_params(params: Seq<Seq<char>>, args: Seq<Value>, from: int, env: Env) -> Env
    decreases params.len() - from,
{
    if 0 <= from < params.len() {
        bind_params(params, args, from + 1, env_insert(env, params[from], args[from]))
    } else {
        env
    }
}

/// The meaning of an expression that stands on line `line`, in `state`, where lambda
/// calls may be nested `depth` deep.
///
/// A literal is its own value. A name has the value of its nearest binding. A call looks
/// up the callee first, then evaluates the arguments; a native callee adds a native call
/// to the state, a lambda has its parameters bound in the newest frame and its statements
/// evaluated there. An operator evaluates its left operand, then its right one.
pub open spec fn eval_expr_spec(node: ValueExpr, line: usize, state: State, depth: nat) -> Outcome<
    Value,
>
    decreases depth, node, 0nat,
{
    match node {
        ValueExpr::IntLiteral(n) => done(Value::Int(n), state),
        ValueExpr::StrLiteral(s) => done(Value::Str(s), state),
        ValueExpr::Void => done(Value::Void, state),
        ValueExpr::LambdaLiteral { params, body } => done(Value::Lambda { params, body }, state),
        ValueExpr::Call(name) => match env_lookup(state.env, name) {
            Some(value) => done(value, state),
            None => failed(ErrorKind::UnboundName, line, state),
        },
        ValueExpr::FunctionCall { name, args } => match env_lookup(state.env, name) {
            None => failed(ErrorKind::UnboundName, line, state),
            Some(Value::Native(native)) => {
                let evaluated = eval_args_spec(args, 0, Seq::empty(), line, state, depth);
                match evaluated.result {
                    Err(error) => Outcome { result: Err(error), state: evaluated.state },
                    Ok(values) => done(Value::Void, called(evaluated.state, native, values)),
                }
            },
            Some(Value::Lambda { params, body }) => {
                let evaluated = eval_args_spec(args, 0, Seq::empty(), line, state, depth);
                match evaluated.result {
                    Err(error) => Outcome { result: Err(error), state: evaluated.state },
                    Ok(values) => if params.len() != values.len() {
                        failed(ErrorKind::ArityMismatch, line, evaluated.state)
                    } else if depth == 0 {
                        failed(ErrorKind::DepthExceeded, line, evaluated.state)
                    } else {
                        eval_spec(
                            body,
                            0,
                            State {
                                env: bind_params(params, values, 0, evaluated.state.env),
                                calls: evaluated.state.calls,
                            },
                            (depth - 1) as nat,
                        )
                    },
                }
            },
            Some(_) => failed(ErrorKind::NotCallable, line, state),
        },
        ValueExpr::BinaryOp { op, lhs, rhs } => {
            let left = eval_expr_spec(*lhs, line, state, depth);
            match left.result {
                Err(_) => left,
                Ok(left_value) => {
                    let right = eval_expr_spec(*rhs, line, left.state, depth);
                    match right.result {
                        Err(_) => right,
                        Ok(right_value) => Outcome {
                            result: apply_joint(op, left_value, right_value, line),
                            state: right.state,
                        },
                    }
                },
            }
        },
    }
}

/// The meaning of the argument expressions from position `from` on, evaluated from left
/// to right, each in the state that the one before it left; `values` holds the values of
/// those before `from`.
pub open spec fn eval_args_spec(
    args: Seq<ValueExpr>,
    from: int,
    values: Seq<Value>,
    line: usize,
    state: State,
    depth: nat,
) -> Outcome<Seq<Value>>
    decreases depth, args, args.len() - from,
{
    if 0 <= from < args.len() {
        let first = eval_expr_spec(args[from], line, state, depth);
        match first.result {
            Err(error) => Outcome { result: Err(error), state: first.state },
            Ok(value) => eval_args_spec(
                args,
                from + 1,
                values.push(value),
                line,
                first.state,
                depth,
            ),
        }
    } else {
        done(values, state)
    }
}

/// The meaning of a definition: the value of the expression is bound to the name in the
/// newest frame.
pub open spec fn eval_def_spec(
    name: Seq<char>,
    value: ValueExpr,
    line: usize,
    state: State,
    depth: nat,
) -> Outcome<()>
    decreases depth, value, 1nat,
{
    let evaluated = eval_expr_spec(value, line, state, depth);
    match evaluated.result {
        Err(error) => Outcome { result: Err(error), state: evaluated.state },
        Ok(value) => done((), bound(evaluated.state, name, value)),
    }
}

/// The meaning of one statement. The value of an expression statement is dropped, and a
/// return statement is an expression statement.
pub open spec fn eval_statement_spec(statement: Statement, state: State, depth: nat) -> Outcome<()>
    decreases depth, statement, 0nat,
{
    match statement {
        Statement::Def { name, line, value } => eval_def_spec(name, value, line, state, depth),
        Statement::Expr { line, value } => discard(eval_expr_spec(value, line, state, depth)),
        Statement::Return { line, value } => discard(eval_expr_spec(value, line, state, depth)),
    }
}

/// The meaning of the statements from position `from` on, in order. The first failure
/// ends the evaluation; where none fails the result is `Void`.
pub open spec fn eval_spec(
    statements: Seq<Statement>,
    from: int,
    state: State,
    depth: nat,
) -> Outcome<Value>
    decreases depth, statements, statements.len() - from,
{
    if 0 <= from < statements.len() {
        let first = eval_statement_spec(statements[from], state, depth);
        match first.result {
            Err(error) => Outcome { result: Err(error), state: first.state },
            Ok(_) => eval_spec(statements, from + 1, first.state, depth),
        }
    } else {
        done(Value::Void, state)
    }
}

} // verus!
