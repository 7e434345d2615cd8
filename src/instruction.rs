use vstd::prelude::*;
use crate::ast::{BinaryAssignmentOperator, Expression};
use crate::datatype::DataType;
use crate::error::Pos;

verus! {

/// A conditional jump: offsets are relative to the jumping instruction.
#[derive(Clone, Debug)]
pub struct IfJump {
    pub condition: Expression,
    pub jump_true: usize,
    pub jump_false: usize,
}

/// Assignment of the value on top of the stack to a variable.
#[derive(Clone, Debug)]
pub struct GlobalAssignmentControl {
    pub identifier: String,
    pub operator: BinaryAssignmentOperator,
}

/// Declaration of a variable, initialised from the stack when `with_value`.
#[derive(Clone, Debug)]
pub struct DeclarationControl {
    pub identifier: String,
    pub datatype: DataType,
    pub with_value: bool,
}

/// Wiring of a channel between two processes. An index is the depth of the
/// process variable on the variable stack; `None` is the running process.
#[derive(Clone, Debug)]
pub struct ConnectionControl {
    pub sender_idx: Option<usize>,
    pub receiver_idx: Option<usize>,
    pub sender_channel: String,
    pub receiver_channel: String,
}

#[derive(Clone, Debug)]
pub enum InstructionType {
    /// A placeholder, replaced once the jump it stands for is known.
    Empty,
    /// Evaluates an expression and pushes its value.
    Expression(Expression),
    GlobalAssignment(GlobalAssignmentControl),
    Declaration(DeclarationControl),
    /// Calls a function on the value on top of the stack.
    FnCall(String),
    /// Starts a process of the named program.
    Run(String),
    If(IfJump),
    /// Jumps forward by the offset.
    Jump(usize),
    /// Jumps backward by the offset.
    JumpBack(usize),
    Connect(ConnectionControl),
}

/// One instruction. `continues_step` is set when the next instruction
/// belongs to the same scheduler step, so that no other process may run
/// between the two.
#[derive(Clone, Debug)]
pub struct Instruction {
    pub control: InstructionType,
    pub pos: Option<Pos>,
    pub dependencies: Vec<usize>,
    pub continues_step: bool,
}

/// The compiled code of one process.
#[derive(Clone, Debug)]
pub struct ProcessCode {
    pub instructions: Vec<Instruction>,
}

} // verus!
