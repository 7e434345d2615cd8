use vstd::prelude::*;

verus! {

/// A source position: line and column of the first character of a node.
#[derive(Clone, Copy, Debug, PartialEq, Eq, Structural)]
pub struct Pos {
    pub line: usize,
    pub column: usize,
}

/// The kinds of diagnostics that the compiler and the evaluator report.
#[derive(Clone, Copy, Debug, PartialEq, Eq, Structural)]
pub enum ErrorType {
    /// An identifier that no visible declaration binds.
    VariableError,
    /// Channel types that disagree, or a non-process used as a channel endpoint.
    TypeError,
    /// A parse node whose rule does not fit the node being built.
    InvalidRule,
    /// A statement shape that the compiler does not translate.
    UnimplementedFlatten,
}

/// A diagnostic: its kind, where it comes from, the name it is about
/// (a variable, a program, a rule's text) and, for a conflict, the line of
/// the earlier statement it conflicts with.
#[derive(Clone, Debug)]
pub struct AlthreadError {
    pub error_type: ErrorType,
    pub pos: Option<Pos>,
    pub subject: String,
    pub related_line: Option<usize>,
}

impl AlthreadError {
    pub fn new(error_type: ErrorType, pos: Option<Pos>, subject: String, related_line: Option<usize>) -> (r: Self)
        ensures
            r.error_type == error_type,
            r.pos == pos,
            r.subject == subject,
            r.related_line == related_line,
    {
        AlthreadError { error_type, pos, subject, related_line }
    }
}

pub type AlthreadResult<T> = Result<T, AlthreadError>;

} // verus!
