use althread::ast::{
    Assignment, BinaryAssignment, BinaryAssignmentOperator, Declaration, Expression, FnCall, IfControl, Node,
    RunCall, Scope, Statement, WhileControl,
};
use althread::datatype::{DataType, Literal};
use althread::error::{ErrorType, Pos};
use althread::instruction::{InstructionType, ProcessCode};
use althread::registry::CompilerState;

fn p(line: usize) -> Pos {
    Pos { line, column: 1 }
}

fn n<T>(value: T) -> Node<T> {
    Node { value, pos: p(1) }
}

fn lit_int(v: i64) -> Node<Expression> {
    n(Expression::Literal(Literal::Int(v)))
}

fn assign(name: &str, v: i64) -> Node<Statement> {
    n(Statement::Assignment(n(Assignment::Binary(n(BinaryAssignment {
        identifier: n(name.to_string()),
        operator: n(BinaryAssignmentOperator::Assign),
        value: lit_int(v),
    })))))
}

fn declare(name: &str, v: i64) -> Node<Statement> {
    n(Statement::Declaration(n(Declaration {
        identifier: n(name.to_string()),
        datatype: DataType::Int,
        value: Some(lit_int(v)),
    })))
}

fn scope(children: Vec<Node<Statement>>) -> Node<Scope> {
    n(Scope { children })
}

fn cond() -> Node<Expression> {
    n(Expression::Identifier("c".to_string()))
}

fn jumps(control: &InstructionType) -> (usize, usize) {
    match control {
        InstructionType::If(j) => (j.jump_true, j.jump_false),
        other => panic!("not a conditional: {:?}", other),
    }
}

#[test]
fn if_without_else_skips_then_branch() {
    let stmt = Statement::If(n(IfControl {
        condition: cond(),
        then_block: scope(vec![assign("x", 1), assign("y", 2)]),
        else_block: None,
    }));
    let mut code = ProcessCode { instructions: Vec::new() };
    let mut st = CompilerState::new("M".to_string());
    stmt.flatten(&mut code, &mut st);
    assert_eq!(code.instructions.len(), 5);
    assert_eq!(jumps(&code.instructions[0].control), (1, 5));
}

#[test]
fn if_with_else_lands_at_else_branch() {
    let stmt = Statement::If(n(IfControl {
        condition: cond(),
        then_block: scope(vec![assign("x", 1)]),
        else_block: Some(scope(vec![assign("x", 2), assign("y", 3)])),
    }));
    let mut code = ProcessCode { instructions: Vec::new() };
    let mut st = CompilerState::new("M".to_string());
    stmt.flatten(&mut code, &mut st);
    // if, then (2), jump, else (4)
    assert_eq!(code.instructions.len(), 8);
    let (t, f) = jumps(&code.instructions[0].control);
    assert_eq!(t, 1);
    assert_eq!(f, 4);
    assert!(matches!(code.instructions[3].control, InstructionType::Jump(5)));
    assert!(matches!(code.instructions[4].control, InstructionType::Expression(_)));
}

#[test]
fn if_placed_after_existing_code_uses_relative_offsets() {
    let mut code = ProcessCode { instructions: Vec::new() };
    let mut st = CompilerState::new("M".to_string());
    assign("z", 0).value.flatten(&mut code, &mut st);
    let stmt = Statement::If(n(IfControl { condition: cond(), then_block: scope(vec![assign("x", 1)]), else_block: None }));
    stmt.flatten(&mut code, &mut st);
    assert_eq!(code.instructions.len(), 5);
    assert_eq!(jumps(&code.instructions[2].control), (1, 3));
}

#[test]
fn while_jumps_back_to_condition() {
    let stmt = Statement::While(n(WhileControl {
        condition: cond(),
        then_block: Box::new(n(Statement::Scope(scope(vec![assign("x", 1)])))),
    }));
    let mut code = ProcessCode { instructions: Vec::new() };
    let mut st = CompilerState::new("M".to_string());
    stmt.flatten(&mut code, &mut st);
    assert_eq!(code.instructions.len(), 4);
    assert_eq!(jumps(&code.instructions[0].control), (1, 4));
    assert!(matches!(code.instructions[3].control, InstructionType::JumpBack(3)));
}

#[test]
fn atomic_statements_form_one_step() {
    let mut st = CompilerState::new("M".to_string());
    let block = assign("x", 4).value.compile(&mut st).unwrap();
    assert_eq!(block.len(), 2);
    assert!(block[0].continues_step);
    assert!(!block[1].continues_step);
    let call = n(Statement::FnCall(n(FnCall { name: n("print".to_string()), argument: lit_int(3) })));
    let block = call.value.compile(&mut st).unwrap();
    assert_eq!(block.len(), 2);
    assert!(block[0].continues_step && !block[1].continues_step);
    let run = n(Statement::Run(n(RunCall { program: n("B".to_string()) })));
    let block = run.value.compile(&mut st).unwrap();
    assert_eq!(block.len(), 1);
    assert!(!block[0].continues_step);
}

#[test]
fn control_flow_has_boundaries_between_nested_statements() {
    let stmt = Statement::If(n(IfControl {
        condition: cond(),
        then_block: scope(vec![assign("x", 1), assign("y", 2)]),
        else_block: None,
    }));
    let mut code = ProcessCode { instructions: Vec::new() };
    let mut st = CompilerState::new("M".to_string());
    stmt.flatten(&mut code, &mut st);
    let steps: Vec<bool> = code.instructions.iter().map(|i| i.continues_step).collect();
    assert_eq!(steps, vec![false, true, false, true, false]);
}

#[test]
fn compile_of_control_flow_is_unimplemented() {
    let mut st = CompilerState::new("M".to_string());
    let stmt = Statement::Scope(Node { value: Scope { children: vec![] }, pos: p(6) });
    let err = stmt.compile(&mut st).unwrap_err();
    assert_eq!(err.error_type, ErrorType::UnimplementedFlatten);
    assert_eq!(err.pos, Some(p(6)));
}

#[test]
fn is_atomic_classification() {
    assert!(assign("x", 1).value.is_atomic());
    assert!(declare("x", 1).value.is_atomic());
    assert!(n(Statement::Expression(lit_int(1))).value.is_atomic());
    assert!(!Statement::Scope(scope(vec![])).is_atomic());
    assert!(!Statement::If(n(IfControl { condition: cond(), then_block: scope(vec![]), else_block: None })).is_atomic());
}

#[test]
fn scope_drops_its_declarations() {
    let mut code = ProcessCode { instructions: Vec::new() };
    let mut st = CompilerState::new("M".to_string());
    declare("x", 1).value.flatten(&mut code, &mut st);
    assert_eq!(st.program_stack.len(), 1);
    Statement::Scope(scope(vec![declare("x", 2), declare("y", 3)])).flatten(&mut code, &mut st);
    assert_eq!(st.program_stack.len(), 1);
    assert_eq!(code.instructions.len(), 6);
}

#[test]
fn empty_then_branch_appends_only_the_conditional() {
    let stmt = Statement::If(n(IfControl { condition: cond(), then_block: scope(vec![]), else_block: None }));
    let mut code = ProcessCode { instructions: Vec::new() };
    let mut st = CompilerState::new("M".to_string());
    stmt.flatten(&mut code, &mut st);
    assert_eq!(code.instructions.len(), 1);
    assert_eq!(jumps(&code.instructions[0].control), (1, 1));
    assert!(code.instructions[0].dependencies.is_empty());
}
