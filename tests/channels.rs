use althread::ast::{ChannelDeclaration, Node};
use althread::channel::{get_prog_name, get_var_id, reference_channel};
use althread::datatype::DataType;
use althread::error::{ErrorType, Pos};
use althread::instruction::InstructionType;
use althread::registry::{CompilerState, Var};

fn pos(line: usize) -> Pos {
    Pos { line, column: 1 }
}

fn decl(lp: &str, ln: &str, rp: &str, rn: &str, types: Vec<DataType>, line: usize) -> Node<ChannelDeclaration> {
    Node {
        value: ChannelDeclaration {
            ch_left_prog: lp.to_string(),
            ch_left_name: ln.to_string(),
            ch_right_prog: rp.to_string(),
            ch_right_name: rn.to_string(),
            datatypes: types,
        },
        pos: pos(line),
    }
}

fn has_channel(entries: &[althread::registry::ChannelEntry], prog: &str, chan: &str) -> bool {
    entries.iter().any(|e| e.program == prog && e.channel == chan)
}

#[test]
fn declaration_yields_one_connect_and_clears_forward_uses() {
    let mut st = CompilerState::new("A".to_string());
    st.program_stack.push(Var { name: "b".to_string(), datatype: DataType::Process("B".to_string()) });
    reference_channel(&mut st, &"B".to_string(), &"in".to_string(), &vec![DataType::Int], pos(2)).unwrap();
    let code = decl("self", "out", "b", "in", vec![DataType::Int], 5).compile(&mut st).unwrap();
    assert_eq!(code.len(), 1);
    assert!(matches!(code[0].control, InstructionType::Connect(_)));
    assert!(st.undefined_channels.is_empty());
    assert!(has_channel(&st.channels, "A", "out"));
    assert!(has_channel(&st.channels, "B", "in"));
}

#[test]
fn redeclaring_endpoint_with_other_types_fails() {
    let mut st = CompilerState::new("A".to_string());
    decl("self", "c", "self", "d", vec![DataType::Int], 3).compile(&mut st).unwrap();
    let err = decl("self", "c", "self", "e", vec![DataType::Bool], 7).compile(&mut st).unwrap_err();
    assert_eq!(err.error_type, ErrorType::TypeError);
    assert_eq!(err.related_line, Some(3));
    assert_eq!(err.pos, Some(pos(7)));
    assert_eq!(err.subject, "c");
    // nothing was recorded by the failed declaration
    assert!(!has_channel(&st.channels, "A", "e"));
}

#[test]
fn forward_reference_then_matching_declaration() {
    let mut st = CompilerState::new("ProgramA".to_string());
    reference_channel(&mut st, &"ProgramA".to_string(), &"c".to_string(), &vec![DataType::Int, DataType::Bool], pos(4)).unwrap();
    assert!(has_channel(&st.undefined_channels, "ProgramA", "c"));
    decl("self", "c", "self", "d", vec![DataType::Int, DataType::Bool], 9).compile(&mut st).unwrap();
    assert!(st.undefined_channels.is_empty());
    assert!(has_channel(&st.channels, "ProgramA", "c"));
}

#[test]
fn forward_reference_then_conflicting_declaration() {
    let mut st = CompilerState::new("ProgramA".to_string());
    reference_channel(&mut st, &"ProgramA".to_string(), &"c".to_string(), &vec![DataType::Int], pos(4)).unwrap();
    let err = decl("self", "c", "self", "d", vec![DataType::Str], 9).compile(&mut st).unwrap_err();
    assert_eq!(err.error_type, ErrorType::TypeError);
    assert_eq!(err.related_line, Some(4));
    assert!(has_channel(&st.undefined_channels, "ProgramA", "c"));
    assert!(st.channels.is_empty());
}

#[test]
fn use_after_declaration_with_other_types_fails() {
    let mut st = CompilerState::new("A".to_string());
    decl("self", "c", "self", "d", vec![DataType::Int], 3).compile(&mut st).unwrap();
    let err = reference_channel(&mut st, &"A".to_string(), &"c".to_string(), &vec![DataType::Bool], pos(8)).unwrap_err();
    assert_eq!(err.error_type, ErrorType::TypeError);
    assert_eq!(err.related_line, Some(3));
    reference_channel(&mut st, &"A".to_string(), &"c".to_string(), &vec![DataType::Int], pos(9)).unwrap();
    assert!(st.undefined_channels.is_empty());
}

#[test]
fn end_to_end_program_pair() {
    // compiling P1, which holds a process variable `p2` running P2
    let mut st = CompilerState::new("P1".to_string());
    st.program_stack.push(Var { name: "x".to_string(), datatype: DataType::Int });
    st.program_stack.push(Var { name: "p2".to_string(), datatype: DataType::Process("P2".to_string()) });
    st.program_stack.push(Var { name: "y".to_string(), datatype: DataType::Bool });
    let code = decl("self", "out", "p2", "in", vec![DataType::Int], 12).compile(&mut st).unwrap();
    assert_eq!(code.len(), 1);
    match &code[0].control {
        InstructionType::Connect(c) => {
            assert_eq!(c.sender_idx, None);
            assert_eq!(c.receiver_idx, Some(1));
            assert_eq!(c.sender_channel, "out");
            assert_eq!(c.receiver_channel, "in");
        }
        other => panic!("unexpected instruction {:?}", other),
    }
    assert!(st.undefined_channels.is_empty());
    assert_eq!(st.channels.len(), 2);
    assert!(has_channel(&st.channels, "P1", "out"));
    assert!(has_channel(&st.channels, "P2", "in"));
}

#[test]
fn same_endpoint_on_both_sides() {
    let mut st = CompilerState::new("A".to_string());
    decl("self", "c", "self", "c", vec![DataType::Int], 2).compile(&mut st).unwrap();
    assert_eq!(st.channels.len(), 1);
}

#[test]
fn endpoint_resolution_errors() {
    let mut st = CompilerState::new("A".to_string());
    st.program_stack.push(Var { name: "n".to_string(), datatype: DataType::Int });
    let e = get_prog_name(&"n".to_string(), &st, &pos(3)).unwrap_err();
    assert_eq!(e.error_type, ErrorType::TypeError);
    assert_eq!(e.subject, "n");
    let e = get_var_id(&"missing".to_string(), &st, &pos(3)).unwrap_err();
    assert_eq!(e.error_type, ErrorType::VariableError);
    assert_eq!(get_var_id(&"self".to_string(), &st, &pos(3)).unwrap(), None);
    assert_eq!(get_prog_name(&"self".to_string(), &st, &pos(3)).unwrap(), "A");
    let err = decl("missing", "c", "self", "d", vec![], 4).compile(&mut st).unwrap_err();
    assert_eq!(err.error_type, ErrorType::VariableError);
    assert!(st.channels.is_empty());
}

#[test]
fn var_id_is_depth_of_most_recent_binding() {
    let mut st = CompilerState::new("A".to_string());
    st.program_stack.push(Var { name: "p".to_string(), datatype: DataType::Process("B".to_string()) });
    st.program_stack.push(Var { name: "q".to_string(), datatype: DataType::Int });
    st.program_stack.push(Var { name: "p".to_string(), datatype: DataType::Process("C".to_string()) });
    assert_eq!(get_var_id(&"p".to_string(), &st, &pos(1)).unwrap(), Some(0));
    assert_eq!(get_var_id(&"q".to_string(), &st, &pos(1)).unwrap(), Some(1));
    assert_eq!(get_prog_name(&"p".to_string(), &st, &pos(1)).unwrap(), "C");
}
