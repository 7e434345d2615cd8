use vstd::prelude::*;
use crate::datatype::{DataType, Literal};
use crate::error::Pos;

verus! {

/// An AST value together with its source position.
#[derive(Clone, Debug)]
pub struct Node<T> {
    pub value: T,
    pub pos: Pos,
}

/// An expression: a literal value or a variable read.
#[derive(Clone, Debug)]
pub enum Expression {
    Literal(Literal),
    Identifier(String),
}

impl Expression {
    /// A copy of the expression.
    pub fn duplicate(&self) -> (r: Expression)
        ensures
            r == *self,
    {
        match self {
            Expression::Literal(l) => Expression::Literal(l.duplicate()),
            Expression::Identifier(n) => Expression::Identifier(n.clone()),
        }
    }
}

/// The operator of an assignment statement.
#[derive(Clone, Copy, Debug, PartialEq, Eq, Structural)]
pub enum BinaryAssignmentOperator {
    Assign,
    AddAssign,
    SubAssign,
}

/// `identifier op value`.
#[derive(Clone, Debug)]
pub struct BinaryAssignment {
    pub identifier: Node<String>,
    pub operator: Node<BinaryAssignmentOperator>,
    pub value: Node<Expression>,
}

/// The assignment statements of the language.
#[derive(Clone, Debug)]
pub enum Assignment {
    Binary(Node<BinaryAssignment>),
}

/// `let identifier: datatype = value`.
#[derive(Clone, Debug)]
pub struct Declaration {
    pub identifier: Node<String>,
    pub datatype: DataType,
    pub value: Option<Node<Expression>>,
}

/// A call of a named function on one argument.
#[derive(Clone, Debug)]
pub struct FnCall {
    pub name: Node<String>,
    pub argument: Node<Expression>,
}

/// `run program()`: starts a process of the named program.
#[derive(Clone, Debug)]
pub struct RunCall {
    pub program: Node<String>,
}

/// A braced block of statements with its own variable scope.
#[derive(Debug)]
pub struct Scope {
    pub children: Vec<Node<Statement>>,
}

/// `if condition { then } else { else }`.
#[derive(Debug)]
pub struct IfControl {
    pub condition: Node<Expression>,
    pub then_block: Node<Scope>,
    pub else_block: Option<Node<Scope>>,
}

/// `while condition { then }`.
#[derive(Debug)]
pub struct WhileControl {
    pub condition: Node<Expression>,
    pub then_block: Box<Node<Statement>>,
}

/// The statements of the language.
#[derive(Debug)]
pub enum Statement {
    Assignment(Node<Assignment>),
    Declaration(Node<Declaration>),
    Expression(Node<Expression>),
    Run(Node<RunCall>),
    FnCall(Node<FnCall>),
    If(Node<IfControl>),
    While(Node<WhileControl>),
    Scope(Node<Scope>),
}

impl Statement {
    /// Whether the statement's instructions form one indivisible scheduler step.
    pub open spec fn atomic(&self) -> bool {
        match self {
            Statement::Assignment(_) | Statement::Declaration(_) | Statement::Expression(_)
            | Statement::FnCall(_) | Statement::Run(_) => true,
            _ => false,
        }
    }

    pub fn is_atomic(&self) -> (r: bool)
        ensures
            r == self.atomic(),
    {
        match self {
            Statement::Assignment(_) | Statement::Declaration(_) | Statement::Expression(_)
            | Statement::FnCall(_) | Statement::Run(_) => true,
            _ => false,
        }
    }
}

/// `left_prog.left_name (datatypes) <-> right_prog.right_name`: a channel
/// between two process endpoints; a program name `self` stands for the
/// process being compiled.
#[derive(Clone, Debug)]
pub struct ChannelDeclaration {
    pub ch_left_prog: String,
    pub ch_left_name: String,
    pub ch_right_prog: String,
    pub ch_right_name: String,
    pub datatypes: Vec<DataType>,
}

} // verus!
