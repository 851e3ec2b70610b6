use tof::{
    eval, eval_def, eval_expr, prelude, start, Def, ErrorKind, Expr, NativeCall, Node,
    RuntimeError, Variable, Vars, CALL_DEPTH, JOINT, LEX, STDIO,
};

fn made(native: usize, args: Vec<Variable>) -> NativeCall {
    NativeCall { native, args }
}

fn name(text: &str) -> String {
    text.to_string()
}

fn expr(line_number: usize, node: Node) -> Expr {
    Expr { line_number, node: Box::new(node) }
}

fn number(n: i32) -> Node {
    Node::Int(n)
}

fn text(value: &str) -> Node {
    Node::Str(name(value))
}

fn call(text: &str) -> Node {
    Node::CALL(name(text))
}

fn op(joint: JOINT, lhs: Node, rhs: Node) -> Node {
    Node::OP { joint, lhs: Box::new(lhs), rhs: Box::new(rhs) }
}

fn fccall(text: &str, args: Vec<Node>) -> Node {
    Node::FCCALL { args: args.into_iter().map(Box::new).collect(), name: name(text) }
}

fn def(line_number: usize, text: &str, node: Node) -> LEX {
    LEX::DEF(Def { name: name(text), value: expr(line_number, node) })
}

fn error(kind: ErrorKind, line_number: usize) -> RuntimeError {
    RuntimeError { kind, line_number }
}

fn seeded() -> Vars {
    let mut data = Vars::new();
    prelude(&mut data);
    data
}

#[test]
fn literals_evaluate_to_themselves() {
    let mut data = Vars::new();
    let mut calls: Vec<NativeCall> = Vec::new();
    assert_eq!(eval_expr(expr(1, number(-4)), &mut data, &mut calls, 8), Ok(Variable::Int(-4)));
    assert_eq!(
        eval_expr(expr(1, text("hi")), &mut data, &mut calls, 8),
        Ok(Variable::Str(name("hi")))
    );
    assert_eq!(eval_expr(expr(1, Node::VOID), &mut data, &mut calls, 8), Ok(Variable::Void));
    assert!(calls.is_empty());
}

#[test]
fn lambda_literal_keeps_parameters_and_body() {
    let mut data = Vars::new();
    let mut calls: Vec<NativeCall> = Vec::new();
    let body = vec![def(2, "a", number(1)), LEX::RETURN(expr(3, call("a")))];
    let literal = Node::Lamda { args: vec![name("a"), name("b")], value: body.clone() };
    assert_eq!(
        eval_expr(expr(1, literal), &mut data, &mut calls, 8),
        Ok(Variable::Lamda { args: vec![name("a"), name("b")], value: body })
    );
    assert_eq!(data.get("a"), None);
}

#[test]
fn add_two_integers() {
    let mut data = Vars::new();
    let mut calls: Vec<NativeCall> = Vec::new();
    let sum = op(JOINT::ADD, number(2), number(3));
    assert_eq!(eval_expr(expr(1, sum), &mut data, &mut calls, 8), Ok(Variable::Int(5)));
}

#[test]
fn add_two_strings() {
    let mut data = Vars::new();
    let mut calls: Vec<NativeCall> = Vec::new();
    let sum = op(JOINT::ADD, text("a"), text("b"));
    assert_eq!(eval_expr(expr(1, sum), &mut data, &mut calls, 8), Ok(Variable::Str(name("ab"))));
}

#[test]
fn add_integer_and_string_is_a_type_mismatch() {
    let mut data = Vars::new();
    let mut calls: Vec<NativeCall> = Vec::new();
    let sum = op(JOINT::ADD, number(2), text("b"));
    assert_eq!(
        eval_expr(expr(6, sum), &mut data, &mut calls, 8),
        Err(error(ErrorKind::TypeMismatch, 6))
    );
    let sum = op(JOINT::ADD, text("b"), number(2));
    assert_eq!(
        eval_expr(expr(7, sum), &mut data, &mut calls, 8),
        Err(error(ErrorKind::TypeMismatch, 7))
    );
    let sum = op(JOINT::ADD, Node::VOID, Node::VOID);
    assert_eq!(
        eval_expr(expr(8, sum), &mut data, &mut calls, 8),
        Err(error(ErrorKind::TypeMismatch, 8))
    );
}

#[test]
fn add_at_the_edge_of_the_integer_range() {
    let mut data = Vars::new();
    let mut calls: Vec<NativeCall> = Vec::new();
    let sum = op(JOINT::ADD, number(i32::MAX - 1), number(1));
    assert_eq!(eval_expr(expr(1, sum), &mut data, &mut calls, 8), Ok(Variable::Int(i32::MAX)));
    let sum = op(JOINT::ADD, number(i32::MAX), number(1));
    assert_eq!(
        eval_expr(expr(2, sum), &mut data, &mut calls, 8),
        Err(error(ErrorKind::ArithmeticOverflow, 2))
    );
    let sum = op(JOINT::ADD, number(i32::MIN), number(-1));
    assert_eq!(
        eval_expr(expr(3, sum), &mut data, &mut calls, 8),
        Err(error(ErrorKind::ArithmeticOverflow, 3))
    );
    let sum = op(JOINT::ADD, number(i32::MIN), number(i32::MAX));
    assert_eq!(eval_expr(expr(4, sum), &mut data, &mut calls, 8), Ok(Variable::Int(-1)));
}

#[test]
fn nested_additions() {
    let mut data = Vars::new();
    let mut calls: Vec<NativeCall> = Vec::new();
    let sum = op(JOINT::ADD, op(JOINT::ADD, number(1), number(2)), op(JOINT::ADD, number(3), number(4)));
    assert_eq!(eval_expr(expr(1, sum), &mut data, &mut calls, 8), Ok(Variable::Int(10)));
}

#[test]
fn call_of_a_bound_name_copies_its_value() {
    let mut data = Vars::new();
    let mut calls: Vec<NativeCall> = Vec::new();
    data.insert(name("x"), Variable::Str(name("v")));
    assert_eq!(
        eval_expr(expr(1, call("x")), &mut data, &mut calls, 8),
        Ok(Variable::Str(name("v")))
    );
    assert_eq!(data.get("x"), Some(&Variable::Str(name("v"))));
}

#[test]
fn call_of_an_unbound_name_fails() {
    let mut data = Vars::new();
    let mut calls: Vec<NativeCall> = Vec::new();
    data.insert(name("present"), Variable::Int(1));
    assert_eq!(
        eval_expr(expr(12, call("missing")), &mut data, &mut calls, 8),
        Err(error(ErrorKind::UnboundName, 12))
    );
    assert_eq!(data.get("present"), Some(&Variable::Int(1)));
    assert_eq!(
        eval_expr(expr(13, call("present")), &mut data, &mut calls, 8),
        Ok(Variable::Int(1))
    );
}

#[test]
fn unbound_name_ends_one_batch_and_not_the_next() {
    let mut data = Vars::new();
    let mut calls: Vec<NativeCall> = Vec::new();
    let batch = vec![
        def(1, "a", number(1)),
        LEX::EXPR(expr(2, call("missing"))),
        def(3, "b", number(2)),
    ];
    assert_eq!(
        eval(batch, &mut data, &mut calls, 8),
        Err(error(ErrorKind::UnboundName, 2))
    );
    assert_eq!(data.get("a"), Some(&Variable::Int(1)));
    assert_eq!(data.get("b"), None);
    let next = vec![def(4, "b", op(JOINT::ADD, call("a"), number(1)))];
    assert_eq!(eval(next, &mut data, &mut calls, 8), Ok(Variable::Void));
    assert_eq!(data.get("b"), Some(&Variable::Int(2)));
}

#[test]
fn function_call_of_an_unbound_name_fails_before_its_arguments() {
    let mut data = seeded();
    let mut calls: Vec<NativeCall> = Vec::new();
    let inner = fccall("stdio", vec![number(1)]);
    assert_eq!(
        eval_expr(expr(5, fccall("missing", vec![inner])), &mut data, &mut calls, 8),
        Err(error(ErrorKind::UnboundName, 5))
    );
    assert!(calls.is_empty());
}

#[test]
fn function_call_of_a_plain_value_is_not_callable() {
    let mut data = seeded();
    let mut calls: Vec<NativeCall> = Vec::new();
    data.insert(name("n"), Variable::Int(1));
    data.insert(name("s"), Variable::Str(name("x")));
    data.insert(name("v"), Variable::Void);
    for callee in ["n", "s", "v"] {
        let inner = fccall("stdio", vec![number(1)]);
        assert_eq!(
            eval_expr(expr(9, fccall(callee, vec![inner])), &mut data, &mut calls, 8),
            Err(error(ErrorKind::NotCallable, 9))
        );
    }
    assert!(calls.is_empty());
}

#[test]
fn prelude_binds_stdio() {
    let data = seeded();
    assert_eq!(data.get("stdio"), Some(&Variable::Rusty(STDIO)));
    assert_eq!(data.depth(), 1);
}

#[test]
fn native_call_is_recorded_and_is_void() {
    let mut data = seeded();
    let mut calls: Vec<NativeCall> = Vec::new();
    let shown = fccall("stdio", vec![text("hi")]);
    assert_eq!(eval_expr(expr(1, shown), &mut data, &mut calls, 8), Ok(Variable::Void));
    assert_eq!(calls, vec![made(STDIO, vec![Variable::Str(name("hi"))])]);
    assert_eq!(format!("{:?}", calls[0].args[0]), "Str(\"hi\")");
}

#[test]
fn native_call_evaluates_arguments_left_to_right() {
    let mut data = seeded();
    let mut calls: Vec<NativeCall> = Vec::new();
    data.insert(name("x"), Variable::Int(20));
    let first = fccall("stdio", vec![number(1)]);
    let second = op(JOINT::ADD, call("x"), number(2));
    let third = fccall("stdio", vec![text("three")]);
    let outer = fccall("stdio", vec![first, second, third]);
    assert_eq!(eval_expr(expr(1, outer), &mut data, &mut calls, 8), Ok(Variable::Void));
    assert_eq!(
        calls,
        vec![
            made(STDIO, vec![Variable::Int(1)]),
            made(STDIO, vec![Variable::Str(name("three"))]),
            made(STDIO, vec![Variable::Void, Variable::Int(22), Variable::Void]),
        ]
    );
}

#[test]
fn native_call_before_a_failing_argument_has_happened() {
    let mut data = seeded();
    let mut calls: Vec<NativeCall> = Vec::new();
    let first = fccall("stdio", vec![number(1)]);
    let outer = fccall("stdio", vec![first, call("missing"), number(3)]);
    assert_eq!(
        eval_expr(expr(4, outer), &mut data, &mut calls, 8),
        Err(error(ErrorKind::UnboundName, 4))
    );
    assert_eq!(calls, vec![made(STDIO, vec![Variable::Int(1)])]);
}

#[test]
fn native_number_is_passed_through() {
    let mut data = Vars::new();
    let mut calls: Vec<NativeCall> = Vec::new();
    data.insert(name("beep"), Variable::Rusty(41));
    assert_eq!(
        eval_expr(expr(1, fccall("beep", vec![])), &mut data, &mut calls, 0),
        Ok(Variable::Void)
    );
    assert_eq!(calls, vec![made(41, vec![])]);
}

#[test]
fn lambda_call_mutates_the_frame_of_the_caller() {
    let mut data = seeded();
    let mut calls: Vec<NativeCall> = Vec::new();
    let body = vec![def(2, "a", op(JOINT::ADD, call("a"), number(1)))];
    let program = vec![
        def(1, "f", Node::Lamda { args: vec![name("a")], value: body }),
        def(3, "a", number(10)),
        LEX::EXPR(expr(4, fccall("f", vec![number(4)]))),
    ];
    assert_eq!(eval(program, &mut data, &mut calls, 8), Ok(Variable::Void));
    assert_eq!(data.get("a"), Some(&Variable::Int(5)));
    assert_eq!(data.depth(), 1);
}

#[test]
fn lambda_call_has_the_value_void() {
    let mut data = Vars::new();
    let mut calls: Vec<NativeCall> = Vec::new();
    let body = vec![LEX::RETURN(expr(2, number(7)))];
    data.insert(name("f"), Variable::Lamda { args: vec![], value: body });
    assert_eq!(
        eval_expr(expr(1, fccall("f", vec![])), &mut data, &mut calls, 8),
        Ok(Variable::Void)
    );
    assert_eq!(
        eval_expr(expr(3, op(JOINT::ADD, fccall("f", vec![]), number(1))), &mut data, &mut calls, 8),
        Err(error(ErrorKind::TypeMismatch, 3))
    );
}

#[test]
fn lambda_definitions_stay_after_the_call() {
    let mut data = Vars::new();
    let mut calls: Vec<NativeCall> = Vec::new();
    let body = vec![def(2, "made", op(JOINT::ADD, call("p"), call("q")))];
    data.insert(name("f"), Variable::Lamda { args: vec![name("p"), name("q")], value: body });
    let joined = fccall("f", vec![text("x"), text("y")]);
    assert_eq!(eval_expr(expr(1, joined), &mut data, &mut calls, 8), Ok(Variable::Void));
    assert_eq!(data.get("p"), Some(&Variable::Str(name("x"))));
    assert_eq!(data.get("q"), Some(&Variable::Str(name("y"))));
    assert_eq!(data.get("made"), Some(&Variable::Str(name("xy"))));
}

#[test]
fn lambda_arguments_are_evaluated_before_any_parameter_is_bound() {
    let mut data = Vars::new();
    let mut calls: Vec<NativeCall> = Vec::new();
    data.insert(name("a"), Variable::Int(1));
    data.insert(name("b"), Variable::Int(2));
    data.insert(name("swap"), Variable::Lamda { args: vec![name("a"), name("b")], value: vec![] });
    let swapped = fccall("swap", vec![call("b"), call("a")]);
    assert_eq!(eval_expr(expr(1, swapped), &mut data, &mut calls, 8), Ok(Variable::Void));
    assert_eq!(data.get("a"), Some(&Variable::Int(2)));
    assert_eq!(data.get("b"), Some(&Variable::Int(1)));
}

#[test]
fn lambda_call_in_an_inner_frame_binds_there() {
    let mut data = Vars::new();
    let mut calls: Vec<NativeCall> = Vec::new();
    data.insert(name("a"), Variable::Int(10));
    data.insert(name("f"), Variable::Lamda { args: vec![name("a")], value: vec![] });
    data.push();
    assert_eq!(
        eval_expr(expr(1, fccall("f", vec![number(4)])), &mut data, &mut calls, 8),
        Ok(Variable::Void)
    );
    assert_eq!(data.depth(), 2);
    assert_eq!(data.get("a"), Some(&Variable::Int(4)));
    data.pop();
    assert_eq!(data.get("a"), Some(&Variable::Int(10)));
}

#[test]
fn lambda_with_two_parameters_called_with_one_argument() {
    let mut data = Vars::new();
    let mut calls: Vec<NativeCall> = Vec::new();
    let body = vec![def(2, "ran", number(1))];
    data.insert(name("f"), Variable::Lamda { args: vec![name("a"), name("b")], value: body });
    assert_eq!(
        eval_expr(expr(7, fccall("f", vec![number(1)])), &mut data, &mut calls, 8),
        Err(error(ErrorKind::ArityMismatch, 7))
    );
    assert_eq!(data.get("a"), None);
    assert_eq!(data.get("ran"), None);
}

#[test]
fn lambda_with_one_parameter_called_with_two_arguments() {
    let mut data = Vars::new();
    let mut calls: Vec<NativeCall> = Vec::new();
    data.insert(name("f"), Variable::Lamda { args: vec![name("a")], value: vec![] });
    assert_eq!(
        eval_expr(expr(7, fccall("f", vec![number(1), number(2)])), &mut data, &mut calls, 8),
        Err(error(ErrorKind::ArityMismatch, 7))
    );
    assert_eq!(data.get("a"), None);
}

#[test]
fn failing_argument_comes_before_the_arity_check() {
    let mut data = Vars::new();
    let mut calls: Vec<NativeCall> = Vec::new();
    data.insert(name("f"), Variable::Lamda { args: vec![name("a"), name("b")], value: vec![] });
    assert_eq!(
        eval_expr(expr(7, fccall("f", vec![call("missing")])), &mut data, &mut calls, 8),
        Err(error(ErrorKind::UnboundName, 7))
    );
}

#[test]
fn error_inside_a_lambda_carries_the_line_of_its_statement() {
    let mut data = Vars::new();
    let mut calls: Vec<NativeCall> = Vec::new();
    let body = vec![def(21, "first", number(1)), LEX::EXPR(expr(22, call("missing")))];
    data.insert(name("f"), Variable::Lamda { args: vec![], value: body });
    assert_eq!(
        eval_expr(expr(30, fccall("f", vec![])), &mut data, &mut calls, 8),
        Err(error(ErrorKind::UnboundName, 22))
    );
    assert_eq!(data.get("first"), Some(&Variable::Int(1)));
}

#[test]
fn multiplication_is_not_supported() {
    let mut data = Vars::new();
    let mut calls: Vec<NativeCall> = Vec::new();
    assert_eq!(
        eval_expr(expr(3, op(JOINT::MULT, number(2), number(3))), &mut data, &mut calls, 8),
        Err(error(ErrorKind::UnsupportedOperator, 3))
    );
}

#[test]
fn subtraction_and_division_are_not_supported() {
    let mut data = Vars::new();
    let mut calls: Vec<NativeCall> = Vec::new();
    assert_eq!(
        eval_expr(expr(3, op(JOINT::SUB, number(2), number(3))), &mut data, &mut calls, 8),
        Err(error(ErrorKind::UnsupportedOperator, 3))
    );
    assert_eq!(
        eval_expr(expr(4, op(JOINT::DIV, text("a"), Node::VOID)), &mut data, &mut calls, 8),
        Err(error(ErrorKind::UnsupportedOperator, 4))
    );
}

#[test]
fn unsupported_operator_still_evaluates_both_operands() {
    let mut data = seeded();
    let mut calls: Vec<NativeCall> = Vec::new();
    let product = op(
        JOINT::MULT,
        fccall("stdio", vec![number(1)]),
        fccall("stdio", vec![number(2)]),
    );
    assert_eq!(
        eval_expr(expr(3, product), &mut data, &mut calls, 8),
        Err(error(ErrorKind::UnsupportedOperator, 3))
    );
    assert_eq!(
        calls,
        vec![made(STDIO, vec![Variable::Int(1)]), made(STDIO, vec![Variable::Int(2)])]
    );
}

#[test]
fn failing_left_operand_skips_the_right_one() {
    let mut data = seeded();
    let mut calls: Vec<NativeCall> = Vec::new();
    let sum = op(JOINT::ADD, call("missing"), fccall("stdio", vec![number(2)]));
    assert_eq!(
        eval_expr(expr(3, sum), &mut data, &mut calls, 8),
        Err(error(ErrorKind::UnboundName, 3))
    );
    assert!(calls.is_empty());
}

#[test]
fn eval_def_binds_in_the_newest_frame() {
    let mut data = Vars::new();
    let mut calls: Vec<NativeCall> = Vec::new();
    data.insert(name("x"), Variable::Int(1));
    data.push();
    let definition = Def { name: name("x"), value: expr(1, op(JOINT::ADD, call("x"), number(1))) };
    assert_eq!(eval_def(definition, &mut data, &mut calls, 8), Ok(()));
    assert_eq!(data.get("x"), Some(&Variable::Int(2)));
    data.pop();
    assert_eq!(data.get("x"), Some(&Variable::Int(1)));
}

#[test]
fn eval_def_that_fails_binds_nothing() {
    let mut data = Vars::new();
    let mut calls: Vec<NativeCall> = Vec::new();
    let definition = Def { name: name("x"), value: expr(5, op(JOINT::ADD, number(1), text("s"))) };
    assert_eq!(
        eval_def(definition, &mut data, &mut calls, 8),
        Err(error(ErrorKind::TypeMismatch, 5))
    );
    assert_eq!(data.get("x"), None);
}

#[test]
fn eval_of_statements_is_void() {
    let mut data = Vars::new();
    let mut calls: Vec<NativeCall> = Vec::new();
    assert_eq!(eval(vec![], &mut data, &mut calls, 8), Ok(Variable::Void));
    let program = vec![
        LEX::EXPR(expr(1, number(1))),
        LEX::RETURN(expr(2, number(2))),
        def(3, "after", number(3)),
    ];
    assert_eq!(eval(program, &mut data, &mut calls, 8), Ok(Variable::Void));
    assert_eq!(data.get("after"), Some(&Variable::Int(3)));
}

#[test]
fn recursion_ends_with_depth_exceeded() {
    let mut data = Vars::new();
    let mut calls: Vec<NativeCall> = Vec::new();
    let body = vec![
        def(2, "n", op(JOINT::ADD, call("n"), number(1))),
        LEX::EXPR(expr(3, fccall("f", vec![]))),
    ];
    data.insert(name("n"), Variable::Int(0));
    data.insert(name("f"), Variable::Lamda { args: vec![], value: body });
    assert_eq!(
        eval_expr(expr(9, fccall("f", vec![])), &mut data, &mut calls, 5),
        Err(error(ErrorKind::DepthExceeded, 3))
    );
    assert_eq!(data.get("n"), Some(&Variable::Int(5)));
}

#[test]
fn depth_counts_nested_lambda_calls() {
    let mut calls: Vec<NativeCall> = Vec::new();
    let program = || {
        vec![
            def(1, "inner", Node::Lamda { args: vec![], value: vec![def(2, "hit", number(1))] }),
            def(
                3,
                "outer",
                Node::Lamda { args: vec![], value: vec![LEX::EXPR(expr(4, fccall("inner", vec![])))] },
            ),
            LEX::EXPR(expr(5, fccall("outer", vec![]))),
        ]
    };
    let mut data = Vars::new();
    assert_eq!(
        eval(program(), &mut data, &mut calls, 0),
        Err(error(ErrorKind::DepthExceeded, 5))
    );
    let mut data = Vars::new();
    assert_eq!(
        eval(program(), &mut data, &mut calls, 1),
        Err(error(ErrorKind::DepthExceeded, 4))
    );
    assert_eq!(data.get("hit"), None);
    let mut data = Vars::new();
    assert_eq!(eval(program(), &mut data, &mut calls, 2), Ok(Variable::Void));
    assert_eq!(data.get("hit"), Some(&Variable::Int(1)));
    let mut data = Vars::new();
    assert_eq!(eval(program(), &mut data, &mut calls, CALL_DEPTH), Ok(Variable::Void));
    assert_eq!(data.get("hit"), Some(&Variable::Int(1)));
}

#[test]
fn start_runs_a_program_with_the_prelude() {
    let mut calls: Vec<NativeCall> = Vec::new();
    let program = vec![
        def(1, "greeting", op(JOINT::ADD, text("hel"), text("lo"))),
        LEX::EXPR(expr(2, fccall("stdio", vec![call("greeting")]))),
    ];
    assert_eq!(start(program, &mut calls), Ok(()));
    assert_eq!(calls, vec![made(STDIO, vec![Variable::Str(name("hello"))])]);
}

#[test]
fn start_reports_the_first_failure() {
    let mut calls: Vec<NativeCall> = Vec::new();
    let program = vec![
        LEX::EXPR(expr(1, fccall("stdio", vec![number(1)]))),
        LEX::EXPR(expr(2, op(JOINT::DIV, number(4), number(2)))),
        LEX::EXPR(expr(3, fccall("stdio", vec![number(3)]))),
    ];
    assert_eq!(start(program, &mut calls), Err(error(ErrorKind::UnsupportedOperator, 2)));
    assert_eq!(calls, vec![made(STDIO, vec![Variable::Int(1)])]);
}

#[test]
fn start_stops_unbounded_recursion() {
    let mut calls: Vec<NativeCall> = Vec::new();
    let body = vec![LEX::EXPR(expr(2, fccall("loop", vec![])))];
    let program = vec![
        def(1, "loop", Node::Lamda { args: vec![], value: body }),
        LEX::EXPR(expr(3, fccall("loop", vec![]))),
    ];
    assert_eq!(start(program, &mut calls), Err(error(ErrorKind::DepthExceeded, 2)));
}

#[test]
fn clones_of_the_tree_are_equal_to_it() {
    let body = vec![
        def(2, "a", op(JOINT::SUB, call("a"), number(1))),
        LEX::RETURN(expr(3, fccall("f", vec![text("s"), Node::VOID]))),
    ];
    let literal = Node::Lamda { args: vec![name("a")], value: body.clone() };
    assert_eq!(literal.clone(), literal);
    let statement = def(1, "f", literal);
    assert_eq!(statement.clone(), statement);
    let value = Variable::Lamda { args: vec![name("a")], value: body };
    assert_eq!(value.clone(), value);
    assert_eq!(Variable::Rusty(3).clone(), Variable::Rusty(3));
}

#[test]
fn two_batches_are_one_program() {
    let first = || vec![def(1, "a", number(1)), LEX::EXPR(expr(2, fccall("stdio", vec![call("a")])))];
    let second = || vec![def(3, "b", op(JOINT::ADD, call("a"), number(1))), LEX::EXPR(expr(4, fccall("stdio", vec![call("b")])))];

    let mut whole = seeded();
    let mut whole_calls: Vec<NativeCall> = Vec::new();
    let mut program = first();
    program.extend(second());
    assert_eq!(eval(program, &mut whole, &mut whole_calls, 8), Ok(Variable::Void));

    let mut parts = seeded();
    let mut parts_calls: Vec<NativeCall> = Vec::new();
    assert_eq!(eval(first(), &mut parts, &mut parts_calls, 8), Ok(Variable::Void));
    assert_eq!(eval(second(), &mut parts, &mut parts_calls, 8), Ok(Variable::Void));

    assert_eq!(whole_calls, parts_calls);
    assert_eq!(whole_calls, vec![made(STDIO, vec![Variable::Int(1)]), made(STDIO, vec![Variable::Int(2)])]);
    assert_eq!(whole.get("a"), parts.get("a"));
    assert_eq!(whole.get("b"), Some(&Variable::Int(2)));
    assert_eq!(parts.get("b"), Some(&Variable::Int(2)));
}

#[test]
fn native_calls_are_added_after_those_already_made() {
    let mut calls = vec![made(7, vec![Variable::Void])];
    let program = vec![LEX::EXPR(expr(1, fccall("stdio", vec![number(1)])))];
    assert_eq!(start(program, &mut calls), Ok(()));
    assert_eq!(calls, vec![made(7, vec![Variable::Void]), made(STDIO, vec![Variable::Int(1)])]);
}

#[test]
fn greater_depth_gives_the_same_outcome() {
    let body = vec![def(2, "seen", op(JOINT::ADD, call("p"), text("!")))];
    let program = || {
        vec![
            def(1, "f", Node::Lamda { args: vec![name("p")], value: body.clone() }),
            LEX::EXPR(expr(3, fccall("f", vec![text("x")]))),
            LEX::EXPR(expr(4, fccall("stdio", vec![call("seen")]))),
        ]
    };
    for depth in [1, 2, 50, CALL_DEPTH] {
        let mut data = seeded();
        let mut calls: Vec<NativeCall> = Vec::new();
        assert_eq!(eval(program(), &mut data, &mut calls, depth), Ok(Variable::Void));
        assert_eq!(data.get("seen"), Some(&Variable::Str(name("x!"))));
        assert_eq!(calls, vec![made(STDIO, vec![Variable::Str(name("x!"))])]);
    }
}
