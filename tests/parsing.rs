use althread::ast::{ChannelDeclaration, Statement};
use althread::datatype::DataType;
use althread::error::{ErrorType, Pos};
use althread::parse_tree::{parse_int, ParseNode, Rule};
use althread::program::Program;

fn leaf(rule: Rule, text: &str) -> ParseNode {
    ParseNode { rule, text: text.to_string(), pos: Pos { line: 2, column: 3 }, children: vec![] }
}

fn node(rule: Rule, children: Vec<ParseNode>) -> ParseNode {
    ParseNode { rule, text: String::new(), pos: Pos { line: 2, column: 3 }, children }
}

#[test]
fn parse_int_values() {
    assert_eq!(parse_int(&"0".to_string()), Some(0));
    assert_eq!(parse_int(&"1234".to_string()), Some(1234));
    assert_eq!(parse_int(&"9223372036854775807".to_string()), Some(i64::MAX));
    assert_eq!(parse_int(&"9223372036854775808".to_string()), None);
    assert_eq!(parse_int(&"".to_string()), None);
    assert_eq!(parse_int(&"12a".to_string()), None);
}

#[test]
fn builds_assignment_statement() {
    let stmt = node(Rule::Statement, vec![node(Rule::Assignment, vec![
        leaf(Rule::Identifier, "x"),
        leaf(Rule::AddAssignOp, "+="),
        node(Rule::Expression, vec![leaf(Rule::Int, "42")]),
    ])]);
    let built = Statement::build(&stmt).unwrap();
    assert!(built.value.is_atomic());
    assert!(matches!(built.value, Statement::Assignment(_)));
}

#[test]
fn unexpected_rule_is_invalid_rule() {
    let stmt = node(Rule::Statement, vec![leaf(Rule::Int, "1")]);
    let err = Statement::build(&stmt).unwrap_err();
    assert_eq!(err.error_type, ErrorType::InvalidRule);
    assert_eq!(err.pos, Some(Pos { line: 2, column: 3 }));
}

#[test]
fn builds_nested_if() {
    let cond = node(Rule::Expression, vec![leaf(Rule::True, "true")]);
    let then_block = node(Rule::Scope, vec![node(Rule::Statement, vec![node(Rule::Expression, vec![leaf(Rule::Identifier, "y")])])]);
    let stmt = node(Rule::Statement, vec![node(Rule::IfControl, vec![cond, then_block])]);
    let built = Statement::build(&stmt).unwrap();
    match built.value {
        Statement::If(c) => {
            assert!(c.value.else_block.is_none());
            assert_eq!(c.value.then_block.value.children.len(), 1);
        }
        _ => panic!("expected a conditional"),
    }
}

#[test]
fn builds_channel_declaration() {
    let decl = node(Rule::ChannelDeclaration, vec![
        node(Rule::ChannelEnd, vec![leaf(Rule::Identifier, "self"), leaf(Rule::Identifier, "out")]),
        node(Rule::TypeList, vec![leaf(Rule::IntType, "int"), node(Rule::ProcessType, vec![leaf(Rule::Identifier, "B")])]),
        node(Rule::ChannelEnd, vec![leaf(Rule::Identifier, "b"), leaf(Rule::Identifier, "in")]),
    ]);
    let c = ChannelDeclaration::build(&decl).unwrap();
    assert_eq!(c.ch_left_prog, "self");
    assert_eq!(c.ch_right_name, "in");
    assert_eq!(c.datatypes.len(), 2);
    assert!(matches!(&c.datatypes[1], DataType::Process(n) if n == "B"));
}

#[test]
fn builds_program_blocks() {
    let nodes = vec![
        node(Rule::SharedBlock, vec![]),
        node(Rule::MainBlock, vec![node(Rule::Statement, vec![node(Rule::Expression, vec![leaf(Rule::Null, "null")])])]),
        leaf(Rule::Eoi, ""),
    ];
    let p = Program::build(&nodes).unwrap();
    assert!(p.shared_block.is_some());
    assert_eq!(p.main_block.unwrap().value.children.len(), 1);
    assert_eq!(p.line, 2);
    let bad = vec![leaf(Rule::Int, "3")];
    assert_eq!(Program::build(&bad).unwrap_err().error_type, ErrorType::InvalidRule);
}
