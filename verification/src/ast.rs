//! The syntax tree that the evaluator takes: statements and value expressions, their
//! mathematical models, and deep copies that keep the model.

use vstd::prelude::*;

verus! {

/// The binary operators of the language.
#[derive(Clone, Copy, Debug, PartialEq, Eq, Structural)]
pub enum JOINT {
    ADD,
    SUB,
    MULT,
    DIV,
}

/// A value expression.
#[derive(Debug, PartialEq, Eq)]
#[allow(inconsistent_fields)]
pub enum Node {
    Int(i32),
    Str(String),
    Lamda { args: Vec<String>, value: Vec<LEX> },
    FCCALL { args: Vec<Box<Node>>, name: String },
    CALL(String),
    VOID,
    OP { joint: JOINT, lhs: Box<Node>, rhs: Box<Node> },
}

/// A value expression together with the source line it was read from.
#[derive(Debug, PartialEq, Eq)]
pub struct Expr {
    pub line_number: usize,
    pub node: Box<Node>,
}

/// A definition: `name` is bound to what `value` evaluates to.
#[derive(Debug, PartialEq, Eq)]
pub struct Def {
    pub name: String,
    pub value: Expr,
}

/// A statement.
#[derive(Debug, PartialEq, Eq)]
pub enum LEX {
    DEF(Def),
    EXPR(Expr),
    RETURN(Expr),
}

/// Mathematical model of a [`Node`].
pub enum ValueExpr {
    IntLiteral(i32),
    StrLiteral(Seq<char>),
    LambdaLiteral { params: Seq<Seq<char>>, body: Seq<Statement> },
    FunctionCall { name: Seq<char>, args: Seq<ValueExpr> },
    Call(Seq<char>),
    Void,
    BinaryOp { op: JOINT, lhs: Box<ValueExpr>, rhs: Box<ValueExpr> },
}

/// Mathematical model of a [`LEX`].
pub enum Statement {
    Def { name: Seq<char>, line: usize, value: ValueExpr },
    Expr { line: usize, value: ValueExpr },
    Return { line: usize, value: ValueExpr },
}

/// The models of a list of names, in order.
pub open spec fn names_view(names: Seq<String>) -> Seq<Seq<char>> {
    Seq::new(names.len(), |i: int| names[i]@)
}

/// The model of a node.
pub open spec fn node_view(node: Node) -> ValueExpr
    decreases node,
{
    match node {
        Node::Int(n) => ValueExpr::IntLiteral(n),
        Node::Str(s) => ValueExpr::StrLiteral(s@),
        Node::Lamda { args, value } => ValueExpr::LambdaLiteral {
            params: names_view(args@),
            body: Seq::new(
                value.len() as nat,
                |i: int| if 0 <= i < value.len() { lex_view(value[i]) } else { arbitrary() },
            ),
        },
        Node::FCCALL { args, name } => ValueExpr::FunctionCall {
            name: name@,
            args: Seq::new(
                args.len() as nat,
                |i: int| if 0 <= i < args.len() { node_view(*args[i]) } else { arbitrary() },
            ),
        },
        Node::CALL(name) => ValueExpr::Call(name@),
        Node::VOID => ValueExpr::Void,
        Node::OP { joint, lhs, rhs } => ValueExpr::BinaryOp {
            op: joint,
            lhs: Box::new(node_view(*lhs)),
            rhs: Box::new(node_view(*rhs)),
        },
    }
}

/// The model of a statement.
pub open spec fn lex_view(lex: LEX) -> Statement
    decreases lex,
{
    match lex {
        LEX::DEF(def) => Statement::Def {
            name: def.name@,
            line: def.value.line_number,
            value: node_view(*def.value.node),
        },
        LEX::EXPR(expr) => Statement::Expr { line: expr.line_number, value: node_view(*expr.node) },
        LEX::RETURN(expr) => Statement::Return { line: expr.line_number, value: node_view(*expr.node) },
    }
}

impl View for Node {
    type V = ValueExpr;

    open spec fn view(&self) -> ValueExpr {
        node_view(*self)
    }
}

impl View for LEX {
    type V = Statement;

    open spec fn view(&self) -> Statement {
        lex_view(*self)
    }
}

/// The models of a list of statements, in order.
pub open spec fn lexes_view(lexes: Seq<LEX>) -> Seq<Statement> {
    Seq::new(lexes.len(), |i: int| lexes[i]@)
}

/// The models of a list of nodes, in order.
pub open spec fn nodes_view(nodes: Seq<Box<Node>>) -> Seq<ValueExpr> {
    Seq::new(nodes.len(), |i: int| nodes[i]@)
}

/// The model of a lambda literal holds the models of its parameters and statements.
pub proof fn lemma_lamda_view(args: Vec<String>, value: Vec<LEX>)
    ensures
        (Node::Lamda { args, value })@ == (ValueExpr::LambdaLiteral {
            params: names_view(args@),
            body: lexes_view(value@),
        }),
{
    assert((Node::Lamda { args, value })@->body =~= lexes_view(value@));
}

/// The model of a function call holds the models of its argument expressions.
pub proof fn lemma_fccall_view(args: Vec<Box<Node>>, name: String)
    ensures
        (Node::FCCALL { args, name })@ == (ValueExpr::FunctionCall {
            name: name@,
            args: nodes_view(args@),
        }),
{
    assert((Node::FCCALL { args, name })@->FunctionCall_args =~= nodes_view(args@));
}

/// Copies a list of names.
pub fn clone_names(names: &Vec<String>) -> (copy: Vec<String>)
    ensures
        names_view(copy@) == names_view(names@),
{
    let mut copy: Vec<String> = Vec::new();
    let mut i: usize = 0;
    while i < names.len()
        invariant
            i <= names.len(),
            copy.len() == i,
            forall|j: int| 0 <= j < i ==> copy[j]@ == names[j]@,
        decreases names.len() - i,
    {
        copy.push(names[i].clone());
        i += 1;
    }
    assert(names_view(copy@) =~= names_view(names@));
    copy
}

/// Copies a node with everything below it.
pub fn clone_node(node: &Node) -> (copy: Node)
    ensures
        copy@ == node@,
    decreases node,
{
    match node {
        Node::Int(n) => Node::Int(*n),
        Node::Str(s) => Node::Str(s.clone()),
        Node::Lamda { args, value } => {
            let body = clone_lexes(value);
            let params = clone_names(args);
            proof {
                lemma_lamda_view(params, body);
                lemma_lamda_view(*args, *value);
            }
            Node::Lamda { args: params, value: body }
        },
        Node::FCCALL { args, name: callee } => {
            let mut copy: Vec<Box<Node>> = Vec::new();
            let mut i: usize = 0;
            while i < args.len()
                invariant
                    i <= args.len(),
                    copy.len() == i,
                    forall|j: int| 0 <= j < i ==> copy[j]@ == args[j]@,
                    forall|j: int| 0 <= j < args.len() ==> decreases_to!(node => args[j]),
                decreases args.len() - i,
            {
                copy.push(Box::new(clone_node(&args[i])));
                i += 1;
            }
            let name = callee.clone();
            proof {
                lemma_fccall_view(copy, name);
                lemma_fccall_view(*args, *callee);
                assert(nodes_view(copy@) =~= nodes_view(args@));
            }
            Node::FCCALL { args: copy, name }
        },
        Node::CALL(name) => Node::CALL(name.clone()),
        Node::VOID => Node::VOID,
        Node::OP { joint, lhs, rhs } => Node::OP {
            joint: *joint,
            lhs: Box::new(clone_node(lhs)),
            rhs: Box::new(clone_node(rhs)),
        },
    }
}

/// Copies an expression.
pub fn clone_expr(expr: &Expr) -> (copy: Expr)
    ensures
        copy.line_number == expr.line_number,
        copy.node@ == expr.node@,
    decreases expr,
{
    Expr { line_number: expr.line_number, node: Box::new(clone_node(&expr.node)) }
}

/// Copies a statement.
pub fn clone_lex(lex: &LEX) -> (copy: LEX)
    ensures
        copy@ == lex@,
    decreases lex,
{
    match lex {
        LEX::DEF(def) => LEX::DEF(Def { name: def.name.clone(), value: clone_expr(&def.value) }),
        LEX::EXPR(expr) => LEX::EXPR(clone_expr(expr)),
        LEX::RETURN(expr) => LEX::RETURN(clone_expr(expr)),
    }
}

/// Copies a list of statements.
pub fn clone_lexes(lexes: &Vec<LEX>) -> (copy: Vec<LEX>)
    ensures
        lexes_view(copy@) == lexes_view(lexes@),
    decreases lexes,
{
    let mut copy: Vec<LEX> = Vec::new();
    let mut i: usize = 0;
    while i < lexes.len()
        invariant
            i <= lexes.len(),
            copy.len() == i,
            forall|j: int| 0 <= j < i ==> copy[j]@ == lexes[j]@,
        decreases lexes.len() - i,
    {
        copy.push(clone_lex(&lexes[i]));
        i += 1;
    }
    assert(lexes_view(copy@) =~= lexes_view(lexes@));
    copy
}

impl Clone for Node {
    fn clone(&self) -> (copy: Self)
        ensures
            copy@ == self@,
    {
        clone_node(self)
    }
}

impl Clone for Expr {
    fn clone(&self) -> (copy: Self)
        ensures
            copy.line_number == self.line_number,
            copy.node@ == self.node@,
    {
        clone_expr(self)
    }
}

impl Clone for Def {
    fn clone(&self) -> (copy: Self)
        ensures
            copy.name@ == self.name@,
            copy.value.line_number == self.value.line_number,
            copy.value.node@ == self.value.node@,
    {
        Def { name: self.name.clone(), value: clone_expr(&self.value) }
    }
}

impl Clone for LEX {
    fn clone(&self) -> (copy: Self)
        ensures
            copy@ == self@,
    {
        clone_lex(self)
    }
}

} // verus!
