//! What holds of the environment and of every evaluation, proved from the definitions
//! that the contracts of the library are stated over.

use vstd::prelude::*;
use crate::ast::{Statement, ValueExpr, JOINT};
use crate::error::{ErrorKind, RuntimeError};
use crate::semantics::{
    add_values, bind_params, called, done, eval_args_spec, eval_expr_spec, eval_spec,
    eval_statement_spec, failed, Outcome, State,
};
use crate::variable::Value;
use crate::vars::{env_insert, env_lookup, env_pop, env_push, Env};

verus! {

/// The two environments have the same number of frames, and the same frames below the
/// newest one.
pub open spec fn same_outer_frames(before: Env, after: Env) -> bool {
    &&& before.len() == after.len()
    &&& forall|i: int| 0 <= i < before.len() - 1 ==> before[i] == after[i]
}

/// An environment that has a frame keeps at least one, whatever is done to it.
pub proof fn law_never_empty(env: Env, name: Seq<char>, value: Value)
    requires
        env.len() >= 1,
    ensures
        env_push(env).len() >= 1,
        env_pop(env).len() >= 1,
        env_insert(env, name, value).len() >= 1,
{
}

/// A binding is written to the newest frame: the number of frames stays, and so does
/// every frame below the newest.
pub proof fn law_insert_writes_newest_frame(env: Env, name: Seq<char>, value: Value)
    requires
        env.len() >= 1,
    ensures
        same_outer_frames(env, env_insert(env, name, value)),
        env_insert(env, name, value).last() == env.last().insert(name, value),
{
}

/// After a name is bound, a lookup of that name finds the new value; a lookup of any
/// other name finds what it found before.
pub proof fn law_lookup_after_insert(env: Env, name: Seq<char>, value: Value, other: Seq<char>)
    requires
        env.len() >= 1,
    ensures
        env_lookup(env_insert(env, name, value), name) == Some(value),
        other != name ==> env_lookup(env_insert(env, name, value), other) == env_lookup(env, other),
{
    let after = env_insert(env, name, value);
    assert(after.drop_last() =~= env.drop_last());
}

/// A lookup finds the binding of the newest frame that binds the name.
pub proof fn law_lookup_finds_newest(env: Env, name: Seq<char>, frame: int)
    requires
        0 <= frame < env.len(),
        env[frame].contains_key(name),
        forall|newer: int| frame < newer < env.len() ==> !(#[trigger] env[newer]).contains_key(name),
    ensures
        env_lookup(env, name) == Some(env[frame][name]),
    decreases env.len(),
{
    if frame < env.len() - 1 {
        assert(!env[env.len() - 1].contains_key(name));
        let older = env.drop_last();
        assert forall|newer: int| frame < newer < older.len() implies !(#[trigger] older[newer]).contains_key(
            name,
        ) by {
            assert(older[newer] == env[newer]);
        }
        law_lookup_finds_newest(older, name, frame);
    }
}

/// A lookup finds nothing exactly where no frame binds the name.
pub proof fn law_lookup_of_unbound(env: Env, name: Seq<char>)
    ensures
        env_lookup(env, name) is None <==> forall|frame: int|
            0 <= frame < env.len() ==> !(#[trigger] env[frame]).contains_key(name),
    decreases env.len(),
{
    if env.len() > 0 {
        let older = env.drop_last();
        law_lookup_of_unbound(older, name);
        if env_lookup(env, name) is None {
            assert forall|frame: int| 0 <= frame < env.len() implies !(#[trigger] env[frame]).contains_key(
                name,
            ) by {
                if frame < env.len() - 1 {
                    assert(older[frame] == env[frame]);
                }
            }
        }
        if forall|frame: int| 0 <= frame < env.len() ==> !(#[trigger] env[frame]).contains_key(name) {
            assert(!env[env.len() - 1].contains_key(name));
            assert forall|frame: int| 0 <= frame < older.len() implies !(#[trigger] older[frame]).contains_key(
                name,
            ) by {
                assert(older[frame] == env[frame]);
            }
        }
    }
}

/// Shadowing: a binding made in a new frame is the one that a lookup finds, whatever the
/// outer frames bind the name to; once that frame is popped, the environment is what it
/// was before the push, so every lookup finds what it found then.
pub proof fn law_shadowing(env: Env, name: Seq<char>, value: Value)
    requires
        env.len() >= 1,
    ensures
        env_lookup(env_insert(env_push(env), name, value), name) == Some(value),
        env_pop(env_insert(env_push(env), name, value)) == env,
{
    let inner = env_insert(env_push(env), name, value);
    assert(inner.drop_last() =~= env);
}

/// A push followed by a pop leaves the environment as it was.
pub proof fn law_push_pop(env: Env)
    requires
        env.len() >= 1,
    ensures
        env_pop(env_push(env)) == env,
{
    assert(env_push(env).drop_last() =~= env);
}

/// The sum of two values is an integer for two integers whose sum fits, a string for two
/// strings, and a failure otherwise: an overflow for two integers, a type mismatch for
/// every other pair. Which of these it is depends on the kinds of the operands and, for
/// two integers, on their sum.
pub proof fn law_add_kinds(lhs: Value, rhs: Value, line: usize)
    ensures
        (lhs is Int && rhs is Int) ==> (match add_values(lhs, rhs, line) {
            Ok(sum) => sum is Int && sum->Int_0 == lhs->Int_0 + rhs->Int_0,
            Err(error) => error.kind == ErrorKind::ArithmeticOverflow && !(i32::MIN <= lhs->Int_0
                + rhs->Int_0 <= i32::MAX),
        }),
        (lhs is Str && rhs is Str) ==> add_values(lhs, rhs, line) == Ok::<Value, RuntimeError>(
            Value::Str(lhs->Str_0 + rhs->Str_0),
        ),
        !(lhs is Int && rhs is Int) && !(lhs is Str && rhs is Str) ==> add_values(lhs, rhs, line)
            == Err::<Value, RuntimeError>(
            RuntimeError { kind: ErrorKind::TypeMismatch, line_number: line },
        ),
{
}

/// A name that no frame binds cannot be evaluated, nor called: both fail with
/// `UnboundName`, on the line of the expression, and leave the state as it was.
pub proof fn law_unbound_name(
    name: Seq<char>,
    args: Seq<ValueExpr>,
    line: usize,
    state: State,
    depth: nat,
)
    requires
        env_lookup(state.env, name) is None,
    ensures
        eval_expr_spec(ValueExpr::Call(name), line, state, depth) == failed::<Value>(
            ErrorKind::UnboundName,
            line,
            state,
        ),
        eval_expr_spec(ValueExpr::FunctionCall { name, args }, line, state, depth) == failed::<
            Value,
        >(ErrorKind::UnboundName, line, state),
{
}

/// A call of a name that is bound to an integer, a string or `Void` fails with
/// `NotCallable` before any argument is evaluated.
pub proof fn law_not_callable(
    name: Seq<char>,
    args: Seq<ValueExpr>,
    line: usize,
    state: State,
    depth: nat,
)
    requires
        env_lookup(state.env, name) matches Some(callee) && (callee is Int || callee is Str
            || callee is Void),
    ensures
        eval_expr_spec(ValueExpr::FunctionCall { name, args }, line, state, depth) == failed::<
            Value,
        >(ErrorKind::NotCallable, line, state),
{
}

/// A call of a native function whose arguments evaluate adds one native call, of that
/// function on the values of the arguments, after the native calls that the arguments
/// made. The call expression has the value `Void`, and the environment is as the
/// arguments left it.
pub proof fn law_native_call(
    name: Seq<char>,
    args: Seq<ValueExpr>,
    line: usize,
    state: State,
    depth: nat,
)
    requires
        env_lookup(state.env, name) matches Some(callee) && callee is Native,
        eval_args_spec(args, 0, Seq::empty(), line, state, depth).result is Ok,
    ensures
        ({
            let native = env_lookup(state.env, name)->Some_0->Native_0;
            let evaluated = eval_args_spec(args, 0, Seq::empty(), line, state, depth);
            eval_expr_spec(ValueExpr::FunctionCall { name, args }, line, state, depth) == done(
                Value::Void,
                called(evaluated.state, native, evaluated.result->Ok_0),
            )
        }),
{
}

/// A native function called on one string literal is called on that string, and nothing
/// else happens: the environment stays, and the native calls made before stay in front.
pub proof fn law_native_call_on_literal(
    name: Seq<char>,
    text: Seq<char>,
    line: usize,
    state: State,
    depth: nat,
)
    requires
        env_lookup(state.env, name) matches Some(callee) && callee is Native,
    ensures
        ({
            let native = env_lookup(state.env, name)->Some_0->Native_0;
            eval_expr_spec(
                ValueExpr::FunctionCall { name, args: seq![ValueExpr::StrLiteral(text)] },
                line,
                state,
                depth,
            ) == done(Value::Void, called(state, native, seq![Value::Str(text)]))
        }),
{
    let args = seq![ValueExpr::StrLiteral(text)];
    let first = eval_expr_spec(args[0], line, state, depth);
    assert(first == done(Value::Str(text), state));
    let values = Seq::<Value>::empty().push(Value::Str(text));
    assert(eval_args_spec(args, 1, values, line, state, depth) == done(values, state));
    assert(eval_args_spec(args, 0, Seq::empty(), line, state, depth) == done(values, state));
    assert(values =~= seq![Value::Str(text)]);
}

/// Where every argument expression evaluates, there is one value for each of them.
pub proof fn law_args_count(
    args: Seq<ValueExpr>,
    from: int,
    values: Seq<Value>,
    line: usize,
    state: State,
    depth: nat,
)
    requires
        0 <= from <= args.len(),
    ensures
        eval_args_spec(args, from, values, line, state, depth).result matches Ok(all) ==> all.len()
            == values.len() + args.len() - from,
    decreases args.len() - from,
{
    if from < args.len() {
        let first = eval_expr_spec(args[from], line, state, depth);
        if let Ok(value) = first.result {
            law_args_count(args, from + 1, values.push(value), line, first.state, depth);
        }
    }
}

/// A call of a lambda with a number of arguments other than that of its parameters fails
/// with `ArityMismatch` once the arguments are evaluated; no parameter is bound.
pub proof fn law_arity_mismatch(
    name: Seq<char>,
    args: Seq<ValueExpr>,
    line: usize,
    state: State,
    depth: nat,
)
    requires
        env_lookup(state.env, name) matches Some(Value::Lambda { params, .. }) && params.len()
            != args.len(),
        eval_args_spec(args, 0, Seq::empty(), line, state, depth).result is Ok,
    ensures
        eval_expr_spec(ValueExpr::FunctionCall { name, args }, line, state, depth) == failed::<
            Value,
        >(
            ErrorKind::ArityMismatch,
            line,
            eval_args_spec(args, 0, Seq::empty(), line, state, depth).state,
        ),
{
    law_args_count(args, 0, Seq::empty(), line, state, depth);
}

/// A call of a lambda binds the arguments to the parameters in the newest frame of the
/// caller and evaluates the statements of the lambda in that same environment, one level
/// deeper: whatever they bind stays bound when the call is over.
pub proof fn law_lambda_call_is_flat(
    name: Seq<char>,
    args: Seq<ValueExpr>,
    line: usize,
    state: State,
    depth: nat,
)
    requires
        env_lookup(state.env, name) matches Some(Value::Lambda { params, .. }) && params.len()
            == args.len(),
        eval_args_spec(args, 0, Seq::empty(), line, state, depth).result is Ok,
        depth > 0,
    ensures
        ({
            let callee = env_lookup(state.env, name)->Some_0;
            let evaluated = eval_args_spec(args, 0, Seq::empty(), line, state, depth);
            eval_expr_spec(ValueExpr::FunctionCall { name, args }, line, state, depth)
                == eval_spec(
                callee->body,
                0,
                State {
                    env: bind_params(
                        callee->params,
                        evaluated.result->Ok_0,
                        0,
                        evaluated.state.env,
                    ),
                    calls: evaluated.state.calls,
                },
                (depth - 1) as nat,
            )
        }),
{
    law_args_count(args, 0, Seq::empty(), line, state, depth);
}

/// Subtraction, multiplication and division are not computed: once both operands are
/// evaluated, the left one first, the expression fails with `UnsupportedOperator`.
pub proof fn law_unsupported_operator(
    op: JOINT,
    lhs: ValueExpr,
    rhs: ValueExpr,
    line: usize,
    state: State,
    depth: nat,
)
    requires
        op != JOINT::ADD,
        eval_expr_spec(lhs, line, state, depth).result is Ok,
        eval_expr_spec(rhs, line, eval_expr_spec(lhs, line, state, depth).state, depth).result
            is Ok,
    ensures
        eval_expr_spec(
            ValueExpr::BinaryOp { op, lhs: Box::new(lhs), rhs: Box::new(rhs) },
            line,
            state,
            depth,
        ) == failed::<Value>(
            ErrorKind::UnsupportedOperator,
            line,
            eval_expr_spec(rhs, line, eval_expr_spec(lhs, line, state, depth).state, depth).state,
        ),
{
}

/// A list of statements that evaluates without failure has the value `Void`, whatever
/// its statements are.
pub proof fn law_statements_yield_void(
    statements: Seq<Statement>,
    from: int,
    state: State,
    depth: nat,
)
    ensures
        eval_spec(statements, from, state, depth).result matches Ok(value) ==> value
            == Value::Void,
    decreases statements.len() - from,
{
    if 0 <= from < statements.len() {
        let first = eval_statement_spec(statements[from], state, depth);
        if first.result is Ok {
            law_statements_yield_void(statements, from + 1, first.state, depth);
        }
    }
}

/// The first statement that fails ends the evaluation: its failure is the result, and the
/// state is the one it left, with what the statements before it bound and called.
pub proof fn law_first_failure_ends(
    statements: Seq<Statement>,
    from: int,
    state: State,
    depth: nat,
)
    requires
        0 <= from < statements.len(),
        eval_statement_spec(statements[from], state, depth).result is Err,
    ensures
        eval_spec(statements, from, state, depth).result == Err::<Value, RuntimeError>(
            eval_statement_spec(statements[from], state, depth).result->Err_0,
        ),
        eval_spec(statements, from, state, depth).state == eval_statement_spec(
            statements[from],
            state,
            depth,
        ).state,
{
}

proof fn lemma_second_batch(
    first: Seq<Statement>,
    second: Seq<Statement>,
    from: int,
    state: State,
    depth: nat,
)
    requires
        0 <= from <= second.len(),
    ensures
        eval_spec(first + second, first.len() + from, state, depth) == eval_spec(
            second,
            from,
            state,
            depth,
        ),
    decreases second.len() - from,
{
    if from < second.len() {
        assert((first + second)[first.len() + from] == second[from]);
        let head = eval_statement_spec(second[from], state, depth);
        if head.result is Ok {
            lemma_second_batch(first, second, from + 1, head.state, depth);
        }
    }
}

/// Statements may be evaluated in batches: to evaluate one list and then, where it did
/// not fail, a second list in the state that the first left, is to evaluate the two lists
/// as one. Where the first list fails, the second is not evaluated.
pub proof fn law_batches_compose(
    first: Seq<Statement>,
    second: Seq<Statement>,
    from: int,
    state: State,
    depth: nat,
)
    requires
        0 <= from <= first.len(),
    ensures
        eval_spec(first + second, from, state, depth) == (if eval_spec(
            first,
            from,
            state,
            depth,
        ).result is Ok {
            eval_spec(second, 0, eval_spec(first, from, state, depth).state, depth)
        } else {
            eval_spec(first, from, state, depth)
        }),
    decreases first.len() - from,
{
    if from < first.len() {
        assert((first + second)[from] == first[from]);
        let head = eval_statement_spec(first[from], state, depth);
        if head.result is Ok {
            law_batches_compose(first, second, from + 1, head.state, depth);
        }
    } else {
        lemma_second_batch(first, second, 0, state, depth);
    }
}

/// What holds of a state after an evaluation that started in `before`, whatever was
/// evaluated and however it ended: the environment has the same number of frames, with
/// every frame below the newest unchanged, and the native calls are those of before,
/// followed by the new ones.
pub open spec fn extends(before: State, after: State) -> bool {
    &&& same_outer_frames(before.env, after.env)
    &&& before.calls.len() <= after.calls.len()
    &&& after.calls.subrange(0, before.calls.len() as int) == before.calls
}

/// Binding parameters writes to the newest frame only.
pub proof fn law_bind_keeps_frames(params: Seq<Seq<char>>, args: Seq<Value>, from: int, env: Env)
    ensures
        same_outer_frames(env, bind_params(params, args, from, env)),
    decreases params.len() - from,
{
    if 0 <= from < params.len() {
        law_bind_keeps_frames(params, args, from + 1, env_insert(env, params[from], args[from]));
    }
}

proof fn lemma_extends_transitive(a: State, b: State, c: State)
    requires
        extends(a, b),
        extends(b, c),
    ensures
        extends(a, c),
{
    assert(c.calls.subrange(0, a.calls.len() as int) =~= b.calls.subrange(
        0,
        a.calls.len() as int,
    )) by {
        assert(c.calls.subrange(0, b.calls.len() as int) == b.calls);
    }
}

proof fn lemma_extends_reflexive(a: State)
    ensures
        extends(a, a),
{
    assert(a.calls.subrange(0, a.calls.len() as int) =~= a.calls);
}

/// Evaluation is flat and forgets nothing: an expression, evaluated or failed, leaves the
/// environment with the number of frames that it had, and with every frame below the
/// newest unchanged, and it leaves every native call that was made before in its place.
/// A lambda call pushes no frame: what it binds, it binds in the frame of its caller.
pub proof fn law_expr_extends(node: ValueExpr, line: usize, state: State, depth: nat)
    ensures
        extends(state, eval_expr_spec(node, line, state, depth).state),
    decreases depth, node, 0nat,
{
    lemma_extends_reflexive(state);
    match node {
        ValueExpr::FunctionCall { name, args } => {
            law_args_extend(args, 0, Seq::empty(), line, state, depth);
            let evaluated = eval_args_spec(args, 0, Seq::empty(), line, state, depth);
            match env_lookup(state.env, name) {
                Some(Value::Native(native)) => {
                    if let Ok(values) = evaluated.result {
                        let after = called(evaluated.state, native, values);
                        assert(extends(evaluated.state, after)) by {
                            assert(after.calls.subrange(0, evaluated.state.calls.len() as int)
                                =~= evaluated.state.calls);
                        }
                        lemma_extends_transitive(state, evaluated.state, after);
                    }
                },
                Some(Value::Lambda { params, body }) => {
                    if let Ok(values) = evaluated.result {
                        if params.len() == values.len() && depth > 0 {
                            let entered = State {
                                env: bind_params(params, values, 0, evaluated.state.env),
                                calls: evaluated.state.calls,
                            };
                            law_bind_keeps_frames(params, values, 0, evaluated.state.env);
                            lemma_extends_reflexive(evaluated.state);
                            assert(extends(evaluated.state, entered));
                            lemma_extends_transitive(state, evaluated.state, entered);
                            law_statements_extend(body, 0, entered, (depth - 1) as nat);
                            lemma_extends_transitive(
                                state,
                                entered,
                                eval_spec(body, 0, entered, (depth - 1) as nat).state,
                            );
                        }
                    }
                },
                _ => {},
            }
        },
        ValueExpr::BinaryOp { op, lhs, rhs } => {
            law_expr_extends(*lhs, line, state, depth);
            let left = eval_expr_spec(*lhs, line, state, depth);
            if left.result is Ok {
                law_expr_extends(*rhs, line, left.state, depth);
                lemma_extends_transitive(
                    state,
                    left.state,
                    eval_expr_spec(*rhs, line, left.state, depth).state,
                );
            }
        },
        _ => {},
    }
}

/// The arguments of a call are evaluated in the environment as it is: no frame is added
/// or dropped, none below the newest changes, and no native call is lost.
pub proof fn law_args_extend(
    args: Seq<ValueExpr>,
    from: int,
    values: Seq<Value>,
    line: usize,
    state: State,
    depth: nat,
)
    ensures
        extends(state, eval_args_spec(args, from, values, line, state, depth).state),
    decreases depth, args, args.len() - from,
{
    lemma_extends_reflexive(state);
    if 0 <= from < args.len() {
        law_expr_extends(args[from], line, state, depth);
        let first = eval_expr_spec(args[from], line, state, depth);
        if let Ok(value) = first.result {
            law_args_extend(args, from + 1, values.push(value), line, first.state, depth);
            lemma_extends_transitive(
                state,
                first.state,
                eval_args_spec(args, from + 1, values.push(value), line, first.state, depth).state,
            );
        }
    }
}

/// A statement leaves the environment with the number of frames that it had, with every
/// frame below the newest unchanged, and loses no native call.
pub proof fn law_statement_extends(statement: Statement, state: State, depth: nat)
    ensures
        extends(state, eval_statement_spec(statement, state, depth).state),
    decreases depth, statement, 0nat,
{
    match statement {
        Statement::Def { name, line, value } => {
            law_expr_extends(value, line, state, depth);
            let evaluated = eval_expr_spec(value, line, state, depth);
            assert(extends(state, evaluated.state));
        },
        Statement::Expr { line, value } => {
            law_expr_extends(value, line, state, depth);
        },
        Statement::Return { line, value } => {
            law_expr_extends(value, line, state, depth);
        },
    }
}

/// A list of statements leaves the environment with the number of frames that it had,
/// with every frame below the newest unchanged, and loses no native call.
pub proof fn law_statements_extend(
    statements: Seq<Statement>,
    from: int,
    state: State,
    depth: nat,
)
    ensures
        extends(state, eval_spec(statements, from, state, depth).state),
    decreases depth, statements, statements.len() - from,
{
    lemma_extends_reflexive(state);
    if 0 <= from < statements.len() {
        law_statement_extends(statements[from], state, depth);
        let first = eval_statement_spec(statements[from], state, depth);
        if first.result is Ok {
            law_statements_extend(statements, from + 1, first.state, depth);
            lemma_extends_transitive(
                state,
                first.state,
                eval_spec(statements, from + 1, first.state, depth).state,
            );
        }
    }
}

/// The evaluation did not end because lambda calls were nested too deep.
pub open spec fn within_depth<T>(outcome: Outcome<T>) -> bool {
    !(outcome.result matches Err(error) && error.kind == ErrorKind::DepthExceeded)
}

/// The depth that an evaluation is allowed decides only whether it ends with
/// `DepthExceeded`: an expression that ends otherwise at one depth ends the same way,
/// with the same state, at every greater depth.
pub proof fn law_expr_depth(node: ValueExpr, line: usize, state: State, depth: nat, more: nat)
    requires
        depth <= more,
        within_depth(eval_expr_spec(node, line, state, depth)),
    ensures
        eval_expr_spec(node, line, state, more) == eval_expr_spec(node, line, state, depth),
    decreases depth, node, 0nat,
{
    match node {
        ValueExpr::FunctionCall { name, args } => {
            match env_lookup(state.env, name) {
                Some(Value::Native(_)) => {
                    law_args_depth(args, 0, Seq::empty(), line, state, depth, more);
                },
                Some(Value::Lambda { params, body }) => {
                    law_args_depth(args, 0, Seq::empty(), line, state, depth, more);
                    let evaluated = eval_args_spec(args, 0, Seq::empty(), line, state, depth);
                    if let Ok(values) = evaluated.result {
                        if params.len() == values.len() {
                            law_statements_depth(
                                body,
                                0,
                                State {
                                    env: bind_params(params, values, 0, evaluated.state.env),
                                    calls: evaluated.state.calls,
                                },
                                (depth - 1) as nat,
                                (more - 1) as nat,
                            );
                        }
                    }
                },
                _ => {},
            }
        },
        ValueExpr::BinaryOp { op, lhs, rhs } => {
            law_expr_depth(*lhs, line, state, depth, more);
            let left = eval_expr_spec(*lhs, line, state, depth);
            if left.result is Ok {
                law_expr_depth(*rhs, line, left.state, depth, more);
            }
        },
        _ => {},
    }
}

/// The arguments of a call that are evaluated without `DepthExceeded` at one depth have
/// the same values, and leave the same state, at every greater depth.
pub proof fn law_args_depth(
    args: Seq<ValueExpr>,
    from: int,
    values: Seq<Value>,
    line: usize,
    state: State,
    depth: nat,
    more: nat,
)
    requires
        depth <= more,
        within_depth(eval_args_spec(args, from, values, line, state, depth)),
    ensures
        eval_args_spec(args, from, values, line, state, more) == eval_args_spec(
            args,
            from,
            values,
            line,
            state,
            depth,
        ),
    decreases depth, args, args.len() - from,
{
    if 0 <= from < args.len() {
        law_expr_depth(args[from], line, state, depth, more);
        let first = eval_expr_spec(args[from], line, state, depth);
        if let Ok(value) = first.result {
            law_args_depth(args, from + 1, values.push(value), line, first.state, depth, more);
        }
    }
}

/// A statement that ends without `DepthExceeded` at one depth ends the same way at every
/// greater depth.
pub proof fn law_statement_depth(statement: Statement, state: State, depth: nat, more: nat)
    requires
        depth <= more,
        within_depth(eval_statement_spec(statement, state, depth)),
    ensures
        eval_statement_spec(statement, state, more) == eval_statement_spec(statement, state, depth),
    decreases depth, statement, 0nat,
{
    match statement {
        Statement::Def { name, line, value } => {
            law_expr_depth(value, line, state, depth, more);
        },
        Statement::Expr { line, value } => {
            law_expr_depth(value, line, state, depth, more);
        },
        Statement::Return { line, value } => {
            law_expr_depth(value, line, state, depth, more);
        },
    }
}

/// A list of statements that ends without `DepthExceeded` at one depth ends the same way
/// at every greater depth.
pub proof fn law_statements_depth(
    statements: Seq<Statement>,
    from: int,
    state: State,
    depth: nat,
    more: nat,
)
    requires
        depth <= more,
        within_depth(eval_spec(statements, from, state, depth)),
    ensures
        eval_spec(statements, from, state, more) == eval_spec(statements, from, state, depth),
    decreases depth, statements, statements.len() - from,
{
    if 0 <= from < statements.len() {
        law_statement_depth(statements[from], state, depth, more);
        let first = eval_statement_spec(statements[from], state, depth);
        if first.result is Ok {
            law_statements_depth(statements, from + 1, first.state, depth, more);
        }
    }
}

} // verus!
