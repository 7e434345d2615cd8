use althread::ast::{Expression, IfControl, Node, Scope, Statement, WhileControl, Declaration, BinaryAssignment, BinaryAssignmentOperator, Assignment};
use althread::datatype::{DataType, Literal};
use althread::env::Environment;
use althread::error::{ErrorType, Pos};
use althread::eval::ProcessEnv;
use althread::program::{Assign, Program};

fn n<T>(value: T) -> Node<T> {
    Node { value, pos: Pos { line: 1, column: 1 } }
}

fn int_lit(v: i64) -> Node<Expression> {
    n(Expression::Literal(Literal::Int(v)))
}

fn boolean(b: bool) -> Node<Expression> {
    n(Expression::Literal(Literal::Bool(b)))
}

fn declare(name: &str, v: i64) -> Node<Statement> {
    n(Statement::Declaration(n(Declaration { identifier: n(name.to_string()), datatype: DataType::Int, value: Some(int_lit(v)) })))
}

fn update(name: &str, op: BinaryAssignmentOperator, v: i64) -> Node<Statement> {
    n(Statement::Assignment(n(Assignment::Binary(n(BinaryAssignment {
        identifier: n(name.to_string()),
        operator: n(op),
        value: int_lit(v),
    })))))
}

fn int_of(env: &Environment, name: &str) -> Option<i64> {
    match env.get_symbol(&name.to_string()) {
        Some(Literal::Int(v)) => Some(v),
        _ => None,
    }
}

#[test]
fn shadowing_in_nested_scope() {
    let mut env = Environment::new();
    env.insert_symbol("x".to_string(), Literal::Int(1));
    env.push_scope();
    env.insert_symbol("x".to_string(), Literal::Int(2));
    assert_eq!(int_of(&env, "x"), Some(2));
    env.pop_scope();
    assert_eq!(int_of(&env, "x"), Some(1));
}

#[test]
fn update_of_unbound_symbol_fails() {
    let mut env = Environment::new();
    assert!(env.update_symbol(&"x".to_string(), Literal::Null).is_err());
    env.insert_symbol("x".to_string(), Literal::Int(1));
    assert!(env.update_symbol(&"x".to_string(), Literal::Int(5)).is_ok());
    assert_eq!(int_of(&env, "x"), Some(5));
}

#[test]
fn if_steps_through_positions() {
    let stmt = Statement::If(n(IfControl {
        condition: boolean(true),
        then_block: n(Scope { children: vec![declare("x", 1), update("x", BinaryAssignmentOperator::AddAssign, 4)] }),
        else_block: None,
    }));
    let mut env = ProcessEnv::new();
    let mut mem = Environment::new();
    assert!(stmt.eval(&mut env, &mut mem).unwrap().is_none());
    assert_eq!(env.position, 1);
    assert!(stmt.eval(&mut env, &mut mem).unwrap().is_none());
    assert_eq!(int_of(&mem, "x"), Some(1));
    let done = stmt.eval(&mut env, &mut mem).unwrap();
    assert!(matches!(done, Some(Literal::Null)));
    // the block's scope is closed again
    assert_eq!(int_of(&mem, "x"), None);
}

#[test]
fn false_condition_without_else_completes_at_once() {
    let stmt = Statement::If(n(IfControl { condition: boolean(false), then_block: n(Scope { children: vec![] }), else_block: None }));
    let mut env = ProcessEnv::new();
    let mut mem = Environment::new();
    assert!(matches!(stmt.eval(&mut env, &mut mem).unwrap(), Some(Literal::Null)));
}

#[test]
fn false_condition_moves_to_else() {
    let stmt = Statement::If(n(IfControl {
        condition: boolean(false),
        then_block: n(Scope { children: vec![] }),
        else_block: Some(n(Scope { children: vec![declare("y", 3)] })),
    }));
    let mut env = ProcessEnv::new();
    let mut mem = Environment::new();
    assert!(stmt.eval(&mut env, &mut mem).unwrap().is_none());
    assert_eq!(env.position, 2);
    assert!(matches!(stmt.eval(&mut env, &mut mem).unwrap(), Some(Literal::Null)));
}

#[test]
fn unbound_condition_is_variable_error() {
    let stmt = Statement::If(n(IfControl {
        condition: n(Expression::Identifier("nope".to_string())),
        then_block: n(Scope { children: vec![] }),
        else_block: None,
    }));
    let err = stmt.eval(&mut ProcessEnv::new(), &mut Environment::new()).unwrap_err();
    assert_eq!(err.error_type, ErrorType::VariableError);
    assert_eq!(err.subject, "nope");
}

#[test]
fn while_loop_runs_until_condition_false() {
    // { let i = 0; let go = true; while go { i += 1; go = false } }
    let body = n(Statement::Scope(n(Scope { children: vec![
        update("i", BinaryAssignmentOperator::AddAssign, 1),
        n(Statement::Assignment(n(Assignment::Binary(n(BinaryAssignment {
            identifier: n("go".to_string()),
            operator: n(BinaryAssignmentOperator::Assign),
            value: boolean(false),
        }))))),
    ] })));
    let program = Program {
        shared_block: None,
        main_block: Some(n(Scope { children: vec![
            declare("i", 0),
            n(Statement::Declaration(n(Declaration { identifier: n("go".to_string()), datatype: DataType::Bool, value: Some(boolean(true)) }))),
            n(Statement::While(n(WhileControl { condition: n(Expression::Identifier("go".to_string())), then_block: Box::new(body) }))),
        ] })),
        line: 1,
        column: 1,
    };
    assert_eq!(program.eval(100).unwrap(), true);
    assert_eq!(program.eval(0).unwrap(), false);
}

#[test]
fn add_assign_overflow_is_type_error() {
    let stmt = update("x", BinaryAssignmentOperator::AddAssign, 1);
    let mut mem = Environment::new();
    mem.insert_symbol("x".to_string(), Literal::Int(i64::MAX));
    let err = stmt.value.eval(&mut ProcessEnv::new(), &mut mem).unwrap_err();
    assert_eq!(err.error_type, ErrorType::TypeError);
    let stmt = update("x", BinaryAssignmentOperator::SubAssign, 7);
    stmt.value.eval(&mut ProcessEnv::new(), &mut mem).unwrap();
    assert_eq!(int_of(&mem, "x"), Some(i64::MAX - 7));
}

#[test]
fn assign_eval_updates_or_reports() {
    let a = Assign { identifier: "x".to_string(), value: int_lit(9), line: 3, column: 4 };
    let mut env = Environment::new();
    let err = a.eval(&mut env).unwrap_err();
    assert_eq!(err.error_type, ErrorType::VariableError);
    assert_eq!(err.pos, Some(Pos { line: 3, column: 4 }));
    env.insert_symbol("x".to_string(), Literal::Int(0));
    a.eval(&mut env).unwrap();
    assert_eq!(int_of(&env, "x"), Some(9));
}

#[test]
fn empty_program_completes() {
    let program = Program { main_block: None, shared_block: None, line: 1, column: 1 };
    assert_eq!(program.eval(0).unwrap(), true);
}

#[test]
fn shared_block_error_stops_program() {
    let program = Program {
        shared_block: Some(n(Scope { children: vec![update("missing", BinaryAssignmentOperator::Assign, 1)] })),
        main_block: Some(n(Scope { children: vec![declare("x", 1)] })),
        line: 1,
        column: 1,
    };
    let err = program.eval(10).unwrap_err();
    assert_eq!(err.error_type, ErrorType::VariableError);
    assert_eq!(err.subject, "missing");
}

#[test]
fn shared_bindings_are_gone_after_shared_block() {
    // the shared block's scope closes before the main block runs
    let program = Program {
        shared_block: Some(n(Scope { children: vec![declare("s", 1)] })),
        main_block: Some(n(Scope { children: vec![update("s", BinaryAssignmentOperator::Assign, 2)] })),
        line: 1,
        column: 1,
    };
    assert_eq!(program.eval(10).unwrap_err().error_type, ErrorType::VariableError);
}

#[test]
fn branch_error_keeps_position() {
    let stmt = Statement::If(n(IfControl {
        condition: boolean(true),
        then_block: n(Scope { children: vec![update("zz", BinaryAssignmentOperator::Assign, 1)] }),
        else_block: None,
    }));
    let mut env = ProcessEnv::new();
    let mut mem = Environment::new();
    assert!(stmt.eval(&mut env, &mut mem).unwrap().is_none());
    assert!(stmt.eval(&mut env, &mut mem).is_err());
    assert_eq!(env.position, 1);
}
