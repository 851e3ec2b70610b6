//! The evaluator: it walks the syntax tree, reads and writes the environment, and
//! decides on the native calls. Each function is proved to compute what the definitions
//! of the semantics say.

use vstd::prelude::*;
use vstd::string::StringExecFns;
use crate::ast::{
    lemma_fccall_view, lemma_lamda_view, lexes_view, names_view, nodes_view, Def, Expr, Node,
    JOINT, LEX,
};
use crate::error::{ErrorKind, RuntimeError};
use crate::semantics::{
    add_values, bind_params, discard, eval_args_spec, eval_def_spec, eval_expr_spec, eval_spec,
    eval_statement_spec, Outcome, State,
};
use crate::variable::{calls_view, values_view, NativeCall, Value, Variable};
use crate::vars::{env_insert, Env, Vars};

verus! {

/// The number under which the host knows the native function that shows a value.
pub const STDIO: usize = 0;

/// How deep lambda calls may be nested in an evaluation that `start` runs.
pub const CALL_DEPTH: usize = 256;

/// The model of a result.
pub open spec fn result_view(result: Result<Variable, RuntimeError>) -> Result<Value, RuntimeError> {
    match result {
        Ok(value) => Ok(value@),
        Err(error) => Err(error),
    }
}

/// The state that an environment and a list of native calls stand for.
pub open spec fn state_of(data: Vars, calls: Vec<NativeCall>) -> State {
    State { env: data@, calls: calls_view(calls@) }
}

/// Adds two values: two integers to their sum, two strings to their concatenation.
/// A sum that does not fit the integer type is an `ArithmeticOverflow`, any other pair of
/// operands a `TypeMismatch`.
pub fn add_variables(lhs: Variable, rhs: Variable, line_number: usize) -> (result: Result<
    Variable,
    RuntimeError,
>)
    ensures
        result_view(result) == add_values(lhs@, rhs@, line_number),
{
    match lhs {
        Variable::Int(a) => match rhs {
            Variable::Int(b) => match a.checked_add(b) {
                Some(sum) => Ok(Variable::Int(sum)),
                None => Err(RuntimeError { kind: ErrorKind::ArithmeticOverflow, line_number }),
            },
            _ => Err(RuntimeError { kind: ErrorKind::TypeMismatch, line_number }),
        },
        Variable::Str(a) => match rhs {
            Variable::Str(b) => Ok(Variable::Str(a.concat(b.as_str()))),
            _ => Err(RuntimeError { kind: ErrorKind::TypeMismatch, line_number }),
        },
        _ => Err(RuntimeError { kind: ErrorKind::TypeMismatch, line_number }),
    }
}

/// Binds each parameter to the argument at its position, in order, in the newest frame.
fn bind(params: &Vec<String>, values: &Vec<Variable>, data: &mut Vars)
    requires
        old(data).wf(),
        params.len() == values.len(),
    ensures
        final(data).wf(),
        final(data)@ == bind_params(names_view(params@), values_view(values@), 0, old(data)@),
{
    let mut pos: usize = 0;
    while pos < params.len()
        invariant
            data.wf(),
            pos <= params.len(),
            params.len() == values.len(),
            bind_params(names_view(params@), values_view(values@), pos as int, data@) == bind_params(
                names_view(params@),
                values_view(values@),
                0,
                old(data)@,
            ),
        decreases params.len() - pos,
    {
        data.insert(params[pos].clone(), values[pos].clone());
        pos += 1;
    }
}

/// Evaluates the statements in order, for what they do to the environment and for the
/// native calls they make. The first failure ends the evaluation and is returned: the
/// statements after it are not evaluated, and what was bound or called before it stays.
/// Without a failure the value is `Void`.
///
/// Lambda calls may be nested `depth` deep. A native call is not carried out here: it is
/// added to `calls`, for the host to carry out in that order.
pub fn eval(lex: Vec<LEX>, data: &mut Vars, calls: &mut Vec<NativeCall>, depth: usize) -> (result:
    Result<Variable, RuntimeError>)
    requires
        old(data).wf(),
    ensures
        final(data).wf(),
        (Outcome { result: result_view(result), state: state_of(*final(data), *final(calls)) })
            == eval_spec(lexes_view(lex@), 0, state_of(*old(data), *old(calls)), depth as nat),
    decreases depth, lexes_view(lex@), lex.len(),
{
    let ghost statements = lexes_view(lex@);
    for line in lines: lex.into_iter()
        invariant
            data.wf(),
            statements == lexes_view(lines.seq()),
            eval_spec(statements, lines.index() as int, state_of(*data, *calls), depth as nat)
                == eval_spec(statements, 0, state_of(*old(data), *old(calls)), depth as nat),
    {
        let ghost before = state_of(*data, *calls);
        let ghost statement = statements[lines.index() as int];
        proof {
            assert(statement == line@);
            assert(decreases_to!(statements => statement));
        }
        let evaluated = match line {
            LEX::DEF(def) => {
                assert(statement is Def && statement->Def_value == def.value.node@);
                eval_def(def, data, calls, depth)
            },
            LEX::EXPR(expr) => {
                assert(statement is Expr && statement->Expr_value == expr.node@);
                match eval_expr(expr, data, calls, depth) {
                    Ok(_) => Ok(()),
                    Err(error) => Err(error),
                }
            },
            LEX::RETURN(expr) => {
                assert(statement is Return && statement->Return_value == expr.node@);
                match eval_expr(expr, data, calls, depth) {
                    Ok(_) => Ok(()),
                    Err(error) => Err(error),
                }
            },
        };
        assert(eval_statement_spec(statement, before, depth as nat) == (Outcome {
            result: evaluated,
            state: state_of(*data, *calls),
        }));
        match evaluated {
            Ok(_) => {},
            Err(error) => {
                return Err(error);
            },
        }
    }
    Ok(Variable::Void)
}

/// Evaluates the expression of a definition and binds its value to the definition's name
/// in the newest frame. Where the expression fails, nothing is bound.
pub fn eval_def(def: Def, data: &mut Vars, calls: &mut Vec<NativeCall>, depth: usize) -> (result:
    Result<(), RuntimeError>)
    requires
        old(data).wf(),
    ensures
        final(data).wf(),
        (Outcome { result, state: state_of(*final(data), *final(calls)) }) == eval_def_spec(
            def.name@,
            def.value.node@,
            def.value.line_number,
            state_of(*old(data), *old(calls)),
            depth as nat,
        ),
    decreases depth, def.value.node@, 1nat,
{
    let Def { name, value } = def;
    match eval_expr(value, data, calls, depth) {
        Ok(val) => {
            data.insert(name, val);
            Ok(())
        },
        Err(error) => Err(error),
    }
}

/// Evaluates the argument expressions of a call from left to right, each in the state
/// that the one before it left.
fn eval_args(
    args: Vec<Box<Node>>,
    line_number: usize,
    data: &mut Vars,
    calls: &mut Vec<NativeCall>,
    depth: usize,
) -> (result: Result<Vec<Variable>, RuntimeError>)
    requires
        old(data).wf(),
    ensures
        final(data).wf(),
        eval_args_spec(
            nodes_view(args@),
            0,
            Seq::empty(),
            line_number,
            state_of(*old(data), *old(calls)),
            depth as nat,
        ) == (Outcome {
            result: match result {
                Ok(values) => Ok(values_view(values@)),
                Err(error) => Err(error),
            },
            state: state_of(*final(data), *final(calls)),
        }),
    decreases depth, nodes_view(args@), args.len(),
{
    let ghost exprs = nodes_view(args@);
    let mut values: Vec<Variable> = Vec::new();
    assert(values_view(values@) =~= Seq::empty());
    for node in nodes: args.into_iter()
        invariant
            data.wf(),
            exprs == nodes_view(nodes.seq()),
            eval_args_spec(
                exprs,
                nodes.index() as int,
                values_view(values@),
                line_number,
                state_of(*data, *calls),
                depth as nat,
            ) == eval_args_spec(
                exprs,
                0,
                Seq::empty(),
                line_number,
                state_of(*old(data), *old(calls)),
                depth as nat,
            ),
    {
        let ghost before = values_view(values@);
        assert(exprs[nodes.index() as int] == node@);
        match eval_expr(Expr { line_number, node }, data, calls, depth) {
            Ok(value) => {
                values.push(value);
                assert(values_view(values@) =~= before.push(value@));
            },
            Err(error) => {
                return Err(error);
            },
        }
    }
    Ok(values)
}

/// Evaluates an expression to its value.
///
/// A literal is its own value, and a lambda literal a lambda of its parameters and
/// statements. A name stands for a copy of its nearest binding. A call looks up the
/// callee, then evaluates the arguments from left to right in the environment as it is.
/// For a native function it then adds the call to `calls`. For a lambda it binds the
/// arguments to the parameters in the newest frame and evaluates the statements of the
/// lambda there, without a frame of their own, one level deeper. The call itself has the
/// value `Void`. An operator evaluates its left operand, then its right one; an addition
/// then adds the two values.
///
/// The failures, each with the line of the expression: `UnboundName` for a name that no
/// frame binds; `NotCallable` for a callee that is an integer, a string or `Void`, before
/// any argument is evaluated; `ArityMismatch` for a lambda whose parameters are not as
/// many as the arguments, before any parameter is bound; `DepthExceeded` for a lambda
/// call where `depth` is zero; `TypeMismatch` and `ArithmeticOverflow` from an addition;
/// `UnsupportedOperator` for any other operator, once both operands are evaluated.
pub fn eval_expr(expr: Expr, data: &mut Vars, calls: &mut Vec<NativeCall>, depth: usize) -> (result:
    Result<Variable, RuntimeError>)
    requires
        old(data).wf(),
    ensures
        final(data).wf(),
        (Outcome { result: result_view(result), state: state_of(*final(data), *final(calls)) })
            == eval_expr_spec(
            expr.node@,
            expr.line_number,
            state_of(*old(data), *old(calls)),
            depth as nat,
        ),
    decreases depth, expr.node@, 0nat,
{
    let Expr { line_number, node } = expr;
    match *node {
        Node::Int(n) => Ok(Variable::Int(n)),
        Node::Str(string) => Ok(Variable::Str(string)),
        Node::Lamda { args, value } => {
            proof {
                lemma_lamda_view(args, value);
            }
            Ok(Variable::Lamda { args, value })
        },
        Node::FCCALL { args, name } => {
            proof {
                lemma_fccall_view(args, name);
            }
            let callee = match data.get(name.as_str()) {
                Some(value) => value.clone(),
                None => {
                    return Err(RuntimeError { kind: ErrorKind::UnboundName, line_number });
                },
            };
            match callee {
                Variable::Rusty(native) => {
                    let values = eval_args(args, line_number, data, calls, depth)?;
                    let ghost before = calls_view(calls@);
                    let call = NativeCall { native, args: values };
                    calls.push(call);
                    assert(calls_view(calls@) =~= before.push(call@));
                    Ok(Variable::Void)
                },
                Variable::Lamda { args: params, value: body } => {
                    let values = eval_args(args, line_number, data, calls, depth)?;
                    if params.len() != values.len() {
                        return Err(RuntimeError { kind: ErrorKind::ArityMismatch, line_number });
                    }
                    if depth == 0 {
                        return Err(RuntimeError { kind: ErrorKind::DepthExceeded, line_number });
                    }
                    bind(&params, &values, data);
                    eval(body, data, calls, depth - 1)
                },
                _ => Err(RuntimeError { kind: ErrorKind::NotCallable, line_number }),
            }
        },
        Node::CALL(name) => match data.get(name.as_str()) {
            Some(value) => Ok(value.clone()),
            None => Err(RuntimeError { kind: ErrorKind::UnboundName, line_number }),
        },
        Node::VOID => Ok(Variable::Void),
        Node::OP { joint, lhs, rhs } => {
            let lhs = eval_expr(Expr { line_number, node: lhs }, data, calls, depth)?;
            let rhs = eval_expr(Expr { line_number, node: rhs }, data, calls, depth)?;
            match joint {
                JOINT::ADD => add_variables(lhs, rhs, line_number),
                JOINT::SUB => Err(RuntimeError { kind: ErrorKind::UnsupportedOperator, line_number }),
                JOINT::MULT => Err(RuntimeError { kind: ErrorKind::UnsupportedOperator, line_number }),
                JOINT::DIV => Err(RuntimeError { kind: ErrorKind::UnsupportedOperator, line_number }),
            }
        },
    }
}

/// The environment that a program starts in: one frame, which binds the name `stdio` to
/// the native function that shows a value.
pub open spec fn prelude_env() -> Env {
    seq![Map::<Seq<char>, Value>::empty().insert("stdio"@, Value::Native(STDIO))]
}

/// Binds the names of the native functions in the newest frame: `stdio` to the native
/// function number `STDIO`.
pub fn prelude(data: &mut Vars)
    requires
        old(data).wf(),
    ensures
        final(data).wf(),
        final(data)@ == env_insert(old(data)@, "stdio"@, Value::Native(STDIO)),
{
    data.insert("stdio".to_owned(), Variable::Rusty(STDIO));
}

/// Evaluates a program in an environment of its own, which holds the native functions
/// and nothing else, with lambda calls nested at most `CALL_DEPTH` deep. The native calls
/// of the program are added to `calls`; the environment is dropped when the evaluation
/// ends.
pub fn start(lex: Vec<LEX>, calls: &mut Vec<NativeCall>) -> (result: Result<(), RuntimeError>)
    ensures
        ({
            let outcome = eval_spec(
                lexes_view(lex@),
                0,
                State { env: prelude_env(), calls: calls_view(old(calls)@) },
                CALL_DEPTH as nat,
            );
            &&& result == discard(outcome).result
            &&& calls_view(final(calls)@) == outcome.state.calls
        }),
{
    let mut data: Vars = Vars::new();
    prelude(&mut data);
    assert(data@ =~= prelude_env());
    match eval(lex, &mut data, calls, CALL_DEPTH) {
        Ok(_) => Ok(()),
        Err(error) => Err(error),
    }
}

} // verus!
