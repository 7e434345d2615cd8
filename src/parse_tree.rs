use vstd::prelude::*;
use crate::ast::{
    Assignment, BinaryAssignment, BinaryAssignmentOperator, ChannelDeclaration, Declaration,
    Expression, FnCall, IfControl, Node, RunCall, Scope, Statement, WhileControl,
};
use crate::datatype::{DataType, DataTypeView, Literal};
use crate::error::{AlthreadError, AlthreadResult, ErrorType, Pos};
use crate::program::Program;

verus! {

/// The grammar rules a parse node can carry.
#[derive(Clone, Copy, Debug, PartialEq, Eq, Structural)]
pub enum Rule {
    Statement,
    Assignment,
    Declaration,
    Expression,
    FnCall,
    RunCall,
    IfControl,
    WhileControl,
    Scope,
    ChannelDeclaration,
    ChannelEnd,
    TypeList,
    Identifier,
    AssignOp,
    AddAssignOp,
    SubAssignOp,
    Int,
    True,
    False,
    Str,
    Null,
    VoidType,
    BoolType,
    IntType,
    StrType,
    ProcessType,
    MainBlock,
    SharedBlock,
    Eoi,
}

/// A matched grammar rule: its tag, the text it matched, where, and the
/// rules matched inside it.
#[derive(Debug)]
pub struct ParseNode {
    pub rule: Rule,
    pub text: String,
    pub pos: Pos,
    pub children: Vec<ParseNode>,
}

/// The error for a node whose rule does not fit what is being built.
pub fn invalid_rule(node: &ParseNode) -> (r: AlthreadError)
    ensures
        r.error_type == ErrorType::InvalidRule,
        r.pos == Some(node.pos),
        r.subject@ == node.text@,
        r.related_line is None,
{
    AlthreadError::new(ErrorType::InvalidRule, Some(node.pos), node.text.clone(), None)
}

/// The child `i` of `node`, or an `InvalidRule` error when it has fewer.
fn child(node: &ParseNode, i: usize) -> (r: AlthreadResult<&ParseNode>)
    ensures
        i < node.children@.len() ==> r == Ok::<&ParseNode, AlthreadError>(&node.children@[i as int]),
        i >= node.children@.len() ==> (r matches Err(e) && e.error_type == ErrorType::InvalidRule),
{
    if i < node.children.len() {
        Ok(&node.children[i])
    } else {
        Err(invalid_rule(node))
    }
}

/// Whether `s` is a non-empty run of decimal digits.
pub open spec fn is_decimal(s: Seq<char>) -> bool {
    s.len() > 0 && forall|i: int| 0 <= i < s.len() ==> '0' <= #[trigger] s[i] <= '9'
}

/// The number that the decimal digits `s` spell.
pub open spec fn decimal_value(s: Seq<char>) -> int
    decreases s.len(),
{
    if s.len() == 0 {
        0
    } else {
        decimal_value(s.drop_last()) * 10 + (s.last() as int - '0' as int)
    }
}

proof fn lemma_decimal_grows(s: Seq<char>, i: int)
    requires
        0 <= i <= s.len(),
        forall|j: int| 0 <= j < s.len() ==> '0' <= #[trigger] s[j] <= '9',
    ensures
        decimal_value(s) >= decimal_value(s.take(i)) >= 0,
    decreases s.len(),
{
    if s.len() > 0 {
        if i == s.len() {
            assert(s.take(i) =~= s);
            lemma_decimal_grows(s.drop_last(), i - 1);
            assert(s.drop_last().take(i - 1) =~= s.drop_last());
        } else {
            lemma_decimal_grows(s.drop_last(), i);
            assert(s.drop_last().take(i) =~= s.take(i));
        }
    } else {
        assert(s.take(i) =~= s);
    }
}

/// Reads a non-negative decimal integer literal.
pub fn parse_int(text: &String) -> (r: Option<i64>)
    ensures
        r matches Some(v) ==> is_decimal(text@) && v == decimal_value(text@),
        r is None ==> !is_decimal(text@) || decimal_value(text@) > i64::MAX,
{
    let s = text.as_str();
    let n = s.unicode_len();
    if n == 0 {
        return None;
    }
    let mut acc: i64 = 0;
    let mut i: usize = 0;
    assert(text@.take(0) =~= Seq::<char>::empty());
    while i < n
        invariant
            n == text@.len(),
            s@ == text@,
            i <= n,
            forall|j: int| 0 <= j < i ==> '0' <= #[trigger] text@[j] <= '9',
            acc == decimal_value(text@.take(i as int)),
            acc >= 0,
        decreases n - i,
    {
        let c = s.get_char(i);
        if c < '0' || c > '9' {
            return None;
        }
        let d = (c as u32 - '0' as u32) as i64;
        assert(text@.take(i + 1).drop_last() =~= text@.take(i as int));
        assert(text@.take(i + 1).last() == c);
        let next = match acc.checked_mul(10) {
            Some(m) => m.checked_add(d),
            None => None,
        };
        match next {
            Some(v) => {
                acc = v;
            },
            None => {
                proof {
                    assert(decimal_value(text@.take(i + 1)) == acc * 10 + d);
                    if is_decimal(text@) {
                        lemma_decimal_grows(text@, i + 1);
                    }
                }
                return None;
            },
        }
        i = i + 1;
    }
    assert(text@.take(n as int) =~= text@);
    Some(acc)
}

/// Whether every error of `r` is an `InvalidRule` error.
pub open spec fn only_invalid_rule<T>(r: AlthreadResult<T>) -> bool {
    r matches Err(e) ==> e.error_type == ErrorType::InvalidRule
}

/// Whether a node is a well-formed type.
pub open spec fn datatype_ok(n: ParseNode) -> bool {
    ||| n.rule == Rule::VoidType
    ||| n.rule == Rule::BoolType
    ||| n.rule == Rule::IntType
    ||| n.rule == Rule::StrType
    ||| n.rule == Rule::ProcessType && n.children@.len() > 0
}

/// The type a well-formed type node denotes.
pub open spec fn datatype_of(n: ParseNode) -> DataTypeView {
    match n.rule {
        Rule::VoidType => DataTypeView::Void,
        Rule::BoolType => DataTypeView::Bool,
        Rule::IntType => DataTypeView::Int,
        Rule::StrType => DataTypeView::Str,
        _ => DataTypeView::Process(n.children@[0].text@),
    }
}

/// Whether a node is a well-formed literal.
pub open spec fn literal_ok(n: ParseNode) -> bool {
    ||| n.rule == Rule::True
    ||| n.rule == Rule::False
    ||| n.rule == Rule::Null
    ||| n.rule == Rule::Str
    ||| n.rule == Rule::Int && is_decimal(n.text@) && decimal_value(n.text@) <= i64::MAX
}

/// Whether a node is a well-formed expression: a literal or an identifier.
pub open spec fn expr_ok(n: ParseNode) -> bool {
    &&& n.rule == Rule::Expression
    &&& n.children@.len() > 0
    &&& (n.children@[0].rule == Rule::Identifier || literal_ok(n.children@[0]))
}

pub open spec fn op_ok(n: ParseNode) -> bool {
    n.rule == Rule::AssignOp || n.rule == Rule::AddAssignOp || n.rule == Rule::SubAssignOp
}

pub open spec fn assignment_ok(n: ParseNode) -> bool {
    &&& n.rule == Rule::Assignment
    &&& n.children@.len() >= 3
    &&& n.children@[0].rule == Rule::Identifier
    &&& op_ok(n.children@[1])
    &&& expr_ok(n.children@[2])
}

pub open spec fn declaration_ok(n: ParseNode) -> bool {
    &&& n.rule == Rule::Declaration
    &&& n.children@.len() >= 2
    &&& n.children@[0].rule == Rule::Identifier
    &&& datatype_ok(n.children@[1])
    &&& n.children@.len() > 2 ==> expr_ok(n.children@[2])
}

pub open spec fn fn_call_ok(n: ParseNode) -> bool {
    &&& n.children@.len() >= 2
    &&& n.children@[0].rule == Rule::Identifier
    &&& expr_ok(n.children@[1])
}

pub open spec fn run_call_ok(n: ParseNode) -> bool {
    n.children@.len() >= 1 && n.children@[0].rule == Rule::Identifier
}

/// Whether a node is a well-formed statement.
pub open spec fn statement_ok(n: ParseNode) -> bool
    decreases n, 0nat,
{
    &&& n.rule == Rule::Statement
    &&& n.children@.len() > 0
    &&& match n.children@[0].rule {
        Rule::Assignment => assignment_ok(n.children@[0]),
        Rule::Declaration => declaration_ok(n.children@[0]),
        Rule::Expression => expr_ok(n.children@[0]),
        Rule::FnCall => fn_call_ok(n.children@[0]),
        Rule::RunCall => run_call_ok(n.children@[0]),
        Rule::IfControl => if_ok(n.children@[0]),
        Rule::WhileControl => while_ok(n.children@[0]),
        Rule::Scope => scope_ok(n.children@[0]),
        _ => false,
    }
}

/// Whether every child of a node is a well-formed statement.
pub open spec fn scope_ok(n: ParseNode) -> bool
    decreases n, 1nat,
{
    children_ok(n, n.children@.len())
}

/// Whether the first `k` children of a node are well-formed statements.
pub open spec fn children_ok(n: ParseNode, k: nat) -> bool
    decreases n, 0nat, k,
{
    if k == 0 || k > n.children@.len() {
        true
    } else {
        children_ok(n, (k - 1) as nat) && statement_ok(n.children@[k - 1])
    }
}

/// Whether a node is a well-formed conditional.
pub open spec fn if_ok(n: ParseNode) -> bool
    decreases n, 2nat,
{
    &&& n.children@.len() >= 2
    &&& expr_ok(n.children@[0])
    &&& scope_ok(n.children@[1])
    &&& n.children@.len() > 2 ==> scope_ok(n.children@[2])
}

/// Whether a node is a well-formed loop.
pub open spec fn while_ok(n: ParseNode) -> bool
    decreases n, 2nat,
{
    &&& n.children@.len() >= 2
    &&& expr_ok(n.children@[0])
    &&& statement_ok(n.children@[1])
}

/// Whether a node is a well-formed channel declaration.
pub open spec fn channel_ok(n: ParseNode) -> bool {
    &&& n.rule == Rule::ChannelDeclaration
    &&& n.children@.len() >= 3
    &&& n.children@[0].rule == Rule::ChannelEnd && n.children@[0].children@.len() >= 2
    &&& n.children@[1].rule == Rule::TypeList
    &&& forall|i: int| 0 <= i < n.children@[1].children@.len() ==> datatype_ok(#[trigger] n.children@[1].children@[i])
    &&& n.children@[2].rule == Rule::ChannelEnd && n.children@[2].children@.len() >= 2
}

/// Whether no node before index `i` is the end marker.
pub open spec fn before_end(nodes: Seq<ParseNode>, i: int) -> bool {
    forall|j: int| 0 <= j < i ==> (#[trigger] nodes[j]).rule != Rule::Eoi
}

/// Whether every node before the end marker is a well-formed block.
pub open spec fn program_ok(nodes: Seq<ParseNode>) -> bool {
    forall|i: int| 0 <= i < nodes.len() && before_end(nodes, i) && (#[trigger] nodes[i]).rule != Rule::Eoi
        ==> (nodes[i].rule == Rule::MainBlock || nodes[i].rule == Rule::SharedBlock) && scope_ok(nodes[i])
}

/// Whether a block of rule `rule` occurs before the end marker.
pub open spec fn has_block(nodes: Seq<ParseNode>, rule: Rule) -> bool {
    exists|i: int| 0 <= i < nodes.len() && before_end(nodes, i) && (#[trigger] nodes[i]).rule == rule
}

pub proof fn lemma_children_ok(n: ParseNode, k: nat)
    requires
        children_ok(n, k),
        k <= n.children@.len(),
    ensures
        forall|i: int| 0 <= i < k ==> statement_ok(#[trigger] n.children@[i]),
    decreases k,
{
    if k > 0 {
        lemma_children_ok(n, (k - 1) as nat);
    }
}

pub proof fn lemma_has_block(nodes: Seq<ParseNode>, i: int, rule: Rule)
    requires
        0 <= i <= nodes.len(),
        before_end(nodes, i),
        i == nodes.len() || nodes[i].rule == Rule::Eoi,
        rule != Rule::Eoi,
    ensures
        has_block(nodes, rule) <==> exists|j: int| 0 <= j < i && (#[trigger] nodes[j]).rule == rule,
{
    if has_block(nodes, rule) {
        let j = choose|j: int| 0 <= j < nodes.len() && before_end(nodes, j) && (#[trigger] nodes[j]).rule == rule;
        if j >= i {
            assert(nodes[i].rule == Rule::Eoi);
            if j > i {
                assert(nodes[i].rule != Rule::Eoi);
            }
        }
    }
    if exists|j: int| 0 <= j < i && (#[trigger] nodes[j]).rule == rule {
        let j = choose|j: int| 0 <= j < i && (#[trigger] nodes[j]).rule == rule;
        assert(before_end(nodes, j));
    }
}

/// Builds an identifier from an `Identifier` node.
pub fn build_identifier(node: &ParseNode) -> (r: AlthreadResult<Node<String>>)
    ensures
        only_invalid_rule(r),
        r is Ok <==> node.rule == Rule::Identifier,
        r matches Ok(n) ==> n.value@ == node.text@ && n.pos == node.pos,
{
    if node.rule == Rule::Identifier {
        Ok(Node { value: node.text.clone(), pos: node.pos })
    } else {
        Err(invalid_rule(node))
    }
}

/// Builds an assignment operator.
pub fn build_operator(node: &ParseNode) -> (r: AlthreadResult<Node<BinaryAssignmentOperator>>)
    ensures
        only_invalid_rule(r),
        r matches Ok(n) ==> n.pos == node.pos && n.value == match node.rule {
            Rule::AddAssignOp => BinaryAssignmentOperator::AddAssign,
            Rule::SubAssignOp => BinaryAssignmentOperator::SubAssign,
            _ => BinaryAssignmentOperator::Assign,
        },
        r is Ok <==> (node.rule == Rule::AssignOp || node.rule == Rule::AddAssignOp || node.rule == Rule::SubAssignOp),
{
    let op = match node.rule {
        Rule::AssignOp => BinaryAssignmentOperator::Assign,
        Rule::AddAssignOp => BinaryAssignmentOperator::AddAssign,
        Rule::SubAssignOp => BinaryAssignmentOperator::SubAssign,
        _ => return Err(invalid_rule(node)),
    };
    Ok(Node { value: op, pos: node.pos })
}

/// Builds a datatype from a type node; a process type names its program
/// in its one child.
pub fn build_datatype(node: &ParseNode) -> (r: AlthreadResult<DataType>)
    ensures
        only_invalid_rule(r),
        r matches Ok(d) ==> match node.rule {
            Rule::VoidType => d is Void,
            Rule::BoolType => d is Bool,
            Rule::IntType => d is Int,
            Rule::StrType => d is Str,
            _ => node.rule == Rule::ProcessType && (d matches DataType::Process(n) && n@ == node.children@[0].text@),
        },
        r matches Ok(d) ==> d@ == datatype_of(*node),
        datatype_ok(*node) ==> r is Ok,
{
    match node.rule {
        Rule::VoidType => Ok(DataType::Void),
        Rule::BoolType => Ok(DataType::Bool),
        Rule::IntType => Ok(DataType::Int),
        Rule::StrType => Ok(DataType::Str),
        Rule::ProcessType => {
            let name = match child(node, 0) {
                Ok(c) => c,
                Err(e) => return Err(e),
            };
            Ok(DataType::Process(name.text.clone()))
        },
        _ => Err(invalid_rule(node)),
    }
}

/// Builds a literal value.
pub fn build_literal(node: &ParseNode) -> (r: AlthreadResult<Literal>)
    ensures
        only_invalid_rule(r),
        r matches Ok(l) ==> match node.rule {
            Rule::Int => l == Literal::Int(decimal_value(node.text@) as i64),
            Rule::True => l == Literal::Bool(true),
            Rule::False => l == Literal::Bool(false),
            Rule::Null => l == Literal::Null,
            _ => node.rule == Rule::Str && (l matches Literal::Str(t) && t@ == node.text@),
        },
        node.rule == Rule::Int ==> (r is Ok <==> is_decimal(node.text@) && decimal_value(node.text@) <= i64::MAX),
        literal_ok(*node) ==> r is Ok,
{
    match node.rule {
        Rule::Int => match parse_int(&node.text) {
            Some(v) => Ok(Literal::Int(v)),
            None => Err(invalid_rule(node)),
        },
        Rule::True => Ok(Literal::Bool(true)),
        Rule::False => Ok(Literal::Bool(false)),
        Rule::Null => Ok(Literal::Null),
        Rule::Str => Ok(Literal::Str(node.text.clone())),
        _ => Err(invalid_rule(node)),
    }
}

impl Expression {
    /// Builds an expression from an `Expression` node holding a literal or
    /// an identifier.
    pub fn build(node: &ParseNode) -> (r: AlthreadResult<Node<Expression>>)
        ensures
            only_invalid_rule(r),
            node.rule != Rule::Expression ==> r is Err,
            r matches Ok(e) ==> e.pos == node.pos && node.children@.len() > 0,
            r matches Ok(e) ==> (node.children@[0].rule == Rule::Identifier ==> (e.value matches Expression::Identifier(n)
                && n@ == node.children@[0].text@)),
            r matches Ok(e) ==> (node.children@[0].rule != Rule::Identifier ==> e.value is Literal),
            expr_ok(*node) ==> r is Ok,
    {
        if node.rule != Rule::Expression {
            return Err(invalid_rule(node));
        }
        let inner = match child(node, 0) {
            Ok(c) => c,
            Err(e) => return Err(e),
        };
        if inner.rule == Rule::Identifier {
            Ok(Node { value: Expression::Identifier(inner.text.clone()), pos: node.pos })
        } else {
            match build_literal(inner) {
                Ok(l) => Ok(Node { value: Expression::Literal(l), pos: node.pos }),
                Err(e) => Err(e),
            }
        }
    }
}

impl BinaryAssignment {
    /// Builds an assignment from its identifier, operator and value.
    pub fn build(node: &ParseNode) -> (r: AlthreadResult<BinaryAssignment>)
        ensures
            only_invalid_rule(r),
            node.rule != Rule::Assignment ==> r is Err,
            r matches Ok(a) ==> a.identifier.value@ == node.children@[0].text@ && a.identifier.pos == node.children@[0].pos
                && a.value.pos == node.children@[2].pos,
            assignment_ok(*node) ==> r is Ok,
    {
        if node.rule != Rule::Assignment {
            return Err(invalid_rule(node));
        }
        let identifier = match child(node, 0) {
            Ok(c) => match build_identifier(c) {
                Ok(i) => i,
                Err(e) => return Err(e),
            },
            Err(e) => return Err(e),
        };
        let operator = match child(node, 1) {
            Ok(c) => match build_operator(c) {
                Ok(o) => o,
                Err(e) => return Err(e),
            },
            Err(e) => return Err(e),
        };
        let value = match child(node, 2) {
            Ok(c) => match Expression::build(c) {
                Ok(v) => v,
                Err(e) => return Err(e),
            },
            Err(e) => return Err(e),
        };
        Ok(BinaryAssignment { identifier, operator, value })
    }
}

impl Declaration {
    /// Builds a declaration from its identifier, type and optional value.
    pub fn build(node: &ParseNode) -> (r: AlthreadResult<Declaration>)
        ensures
            only_invalid_rule(r),
            node.rule != Rule::Declaration ==> r is Err,
            r matches Ok(d) ==> d.identifier.value@ == node.children@[0].text@
                && (d.value is Some <==> node.children@.len() > 2) && d.datatype@ == datatype_of(node.children@[1]),
            declaration_ok(*node) ==> r is Ok,
    {
        if node.rule != Rule::Declaration {
            return Err(invalid_rule(node));
        }
        let identifier = match child(node, 0) {
            Ok(c) => match build_identifier(c) {
                Ok(i) => i,
                Err(e) => return Err(e),
            },
            Err(e) => return Err(e),
        };
        let datatype = match child(node, 1) {
            Ok(c) => match build_datatype(c) {
                Ok(d) => d,
                Err(e) => return Err(e),
            },
            Err(e) => return Err(e),
        };
        let value = if node.children.len() > 2 {
            match Expression::build(&node.children[2]) {
                Ok(v) => Some(v),
                Err(e) => return Err(e),
            }
        } else {
            None
        };
        Ok(Declaration { identifier, datatype, value })
    }
}

impl ChannelDeclaration {
    /// Builds a channel declaration from its left end, its type list and
    /// its right end; each end holds a program name and a channel name.
    pub fn build(node: &ParseNode) -> (r: AlthreadResult<ChannelDeclaration>)
        ensures
            only_invalid_rule(r),
            node.rule != Rule::ChannelDeclaration ==> r is Err,
            r matches Ok(c) ==> c.ch_left_prog@ == node.children@[0].children@[0].text@
                && c.ch_left_name@ == node.children@[0].children@[1].text@
                && c.ch_right_prog@ == node.children@[2].children@[0].text@
                && c.ch_right_name@ == node.children@[2].children@[1].text@
                && c.datatypes@.len() == node.children@[1].children@.len()
                && forall|i: int| 0 <= i < c.datatypes@.len() ==> (#[trigger] c.datatypes@[i])@ == datatype_of(node.children@[1].children@[i]),
            channel_ok(*node) ==> r is Ok,
    {
        if node.rule != Rule::ChannelDeclaration {
            return Err(invalid_rule(node));
        }
        let left = match child(node, 0) {
            Ok(c) => c,
            Err(e) => return Err(e),
        };
        let types = match child(node, 1) {
            Ok(c) => c,
            Err(e) => return Err(e),
        };
        let right = match child(node, 2) {
            Ok(c) => c,
            Err(e) => return Err(e),
        };
        if left.rule != Rule::ChannelEnd || left.children.len() < 2 {
            return Err(invalid_rule(left));
        }
        if right.rule != Rule::ChannelEnd || right.children.len() < 2 {
            return Err(invalid_rule(right));
        }
        if types.rule != Rule::TypeList {
            return Err(invalid_rule(types));
        }
        let mut datatypes: Vec<DataType> = Vec::new();
        let mut i: usize = 0;
        while i < types.children.len()
            invariant
                i <= types.children@.len(),
                datatypes@.len() == i,
                forall|j: int| 0 <= j < i ==> (#[trigger] datatypes@[j])@ == datatype_of(types.children@[j]),
                channel_ok(*node) ==> forall|j: int| 0 <= j < types.children@.len() ==> datatype_ok(#[trigger] types.children@[j]),
            decreases types.children@.len() - i,
        {
            match build_datatype(&types.children[i]) {
                Ok(d) => datatypes.push(d),
                Err(e) => return Err(e),
            }
            i = i + 1;
        }
        Ok(ChannelDeclaration {
            ch_left_prog: left.children[0].text.clone(),
            ch_left_name: left.children[1].text.clone(),
            ch_right_prog: right.children[0].text.clone(),
            ch_right_name: right.children[1].text.clone(),
            datatypes,
        })
    }
}

/// The rule of the node a statement of each kind is built from.
pub open spec fn statement_rule(s: Statement) -> Rule {
    match s {
        Statement::Assignment(_) => Rule::Assignment,
        Statement::Declaration(_) => Rule::Declaration,
        Statement::Expression(_) => Rule::Expression,
        Statement::Run(_) => Rule::RunCall,
        Statement::FnCall(_) => Rule::FnCall,
        Statement::If(_) => Rule::IfControl,
        Statement::While(_) => Rule::WhileControl,
        Statement::Scope(_) => Rule::Scope,
    }
}

impl Statement {
    /// Builds a statement from a `Statement` node; its one child's rule
    /// selects the kind.
    pub fn build(node: &ParseNode) -> (r: AlthreadResult<Node<Statement>>)
        ensures
            only_invalid_rule(r),
            node.rule != Rule::Statement ==> r is Err,
            r matches Ok(s) ==> s.pos == node.pos && node.children@.len() > 0
                && statement_rule(s.value) == node.children@[0].rule,
            r matches Ok(s) ==> match s.value {
                Statement::Assignment(a) => a.value matches Assignment::Binary(b)
                    && b.value.identifier.value@ == node.children@[0].children@[0].text@
                    && b.value.value.pos == node.children@[0].children@[2].pos,
                Statement::Declaration(d) => d.value.identifier.value@ == node.children@[0].children@[0].text@
                    && d.value.datatype@ == datatype_of(node.children@[0].children@[1])
                    && (d.value.value is Some <==> node.children@[0].children@.len() > 2),
                Statement::FnCall(f) => f.value.name.value@ == node.children@[0].children@[0].text@,
                Statement::Run(c) => c.value.program.value@ == node.children@[0].children@[0].text@,
                Statement::If(c) => (c.value.else_block is Some <==> node.children@[0].children@.len() > 2),
                Statement::Scope(c) => c.value.children@.len() == node.children@[0].children@.len(),
                _ => true,
            },
            statement_ok(*node) ==> r is Ok,
        decreases node,
    {
        if node.rule != Rule::Statement {
            return Err(invalid_rule(node));
        }
        let inner = match child(node, 0) {
            Ok(c) => c,
            Err(e) => return Err(e),
        };
        proof { assert(decreases_to!(node => node.children)); }
        let pos = inner.pos;
        let s = match inner.rule {
            Rule::Assignment => match BinaryAssignment::build(inner) {
                Ok(b) => Statement::Assignment(Node { value: Assignment::Binary(Node { value: b, pos }), pos }),
                Err(e) => return Err(e),
            },
            Rule::Declaration => match Declaration::build(inner) {
                Ok(d) => Statement::Declaration(Node { value: d, pos }),
                Err(e) => return Err(e),
            },
            Rule::Expression => match Expression::build(inner) {
                Ok(e) => Statement::Expression(e),
                Err(e) => return Err(e),
            },
            Rule::FnCall => {
                let name = match child(inner, 0) {
                    Ok(c) => match build_identifier(c) {
                        Ok(i) => i,
                        Err(e) => return Err(e),
                    },
                    Err(e) => return Err(e),
                };
                let argument = match child(inner, 1) {
                    Ok(c) => match Expression::build(c) {
                        Ok(v) => v,
                        Err(e) => return Err(e),
                    },
                    Err(e) => return Err(e),
                };
                Statement::FnCall(Node { value: FnCall { name, argument }, pos })
            },
            Rule::RunCall => {
                let program = match child(inner, 0) {
                    Ok(c) => match build_identifier(c) {
                        Ok(i) => i,
                        Err(e) => return Err(e),
                    },
                    Err(e) => return Err(e),
                };
                Statement::Run(Node { value: RunCall { program }, pos })
            },
            Rule::IfControl => match IfControl::build(inner) {
                Ok(c) => Statement::If(Node { value: c, pos }),
                Err(e) => return Err(e),
            },
            Rule::WhileControl => match WhileControl::build(inner) {
                Ok(c) => Statement::While(Node { value: c, pos }),
                Err(e) => return Err(e),
            },
            Rule::Scope => match Scope::build(inner) {
                Ok(c) => Statement::Scope(c),
                Err(e) => return Err(e),
            },
            _ => return Err(invalid_rule(inner)),
        };
        Ok(Node { value: s, pos: node.pos })
    }
}

impl Scope {
    /// Builds a block from a node whose children are its statements.
    pub fn build(node: &ParseNode) -> (r: AlthreadResult<Node<Scope>>)
        ensures
            only_invalid_rule(r),
            r matches Ok(s) ==> s.pos == node.pos && s.value.children@.len() == node.children@.len()
                && forall|i: int| 0 <= i < node.children@.len() ==> node.children@[i].children@.len() > 0
                    && #[trigger] statement_rule(s.value.children@[i].value) == node.children@[i].children@[0].rule,
            scope_ok(*node) ==> r is Ok,
        decreases node,
    {
        let mut children: Vec<Node<Statement>> = Vec::new();
        let mut i: usize = 0;
        proof {
            if scope_ok(*node) {
                lemma_children_ok(*node, node.children@.len());
            }
        }
        proof { assert(decreases_to!(node => node.children)); }
        while i < node.children.len()
            invariant
                i <= node.children@.len(),
                children@.len() == i,
                scope_ok(*node) ==> forall|j: int| 0 <= j < node.children@.len() ==> statement_ok(#[trigger] node.children@[j]),
                forall|j: int| 0 <= j < i ==> node.children@[j].children@.len() > 0
                    && #[trigger] statement_rule(children@[j].value) == node.children@[j].children@[0].rule,
            decreases node.children@.len() - i,
        {
            match Statement::build(&node.children[i]) {
                Ok(s) => children.push(s),
                Err(e) => return Err(e),
            }
            i = i + 1;
        }
        Ok(Node { value: Scope { children }, pos: node.pos })
    }
}

impl IfControl {
    /// Builds a conditional from its condition, then-block and optional
    /// else-block.
    pub fn build(node: &ParseNode) -> (r: AlthreadResult<IfControl>)
        ensures
            only_invalid_rule(r),
            r matches Ok(c) ==> (c.else_block is Some <==> node.children@.len() > 2)
                && c.condition.pos == node.children@[0].pos,
            if_ok(*node) ==> r is Ok,
        decreases node,
    {
        proof { assert(decreases_to!(node => node.children)); }
        let condition = match child(node, 0) {
            Ok(c) => match Expression::build(c) {
                Ok(v) => v,
                Err(e) => return Err(e),
            },
            Err(e) => return Err(e),
        };
        if node.children.len() < 2 {
            return Err(invalid_rule(node));
        }
        let then_block = match Scope::build(&node.children[1]) {
            Ok(b) => b,
            Err(e) => return Err(e),
        };
        let else_block = if node.children.len() > 2 {
            match Scope::build(&node.children[2]) {
                Ok(b) => Some(b),
                Err(e) => return Err(e),
            }
        } else {
            None
        };
        Ok(IfControl { condition, then_block, else_block })
    }
}

impl WhileControl {
    /// Builds a loop from its condition and body.
    pub fn build(node: &ParseNode) -> (r: AlthreadResult<WhileControl>)
        ensures
            only_invalid_rule(r),
            while_ok(*node) ==> r is Ok,
        decreases node,
    {
        proof { assert(decreases_to!(node => node.children)); }
        let condition = match child(node, 0) {
            Ok(c) => match Expression::build(c) {
                Ok(v) => v,
                Err(e) => return Err(e),
            },
            Err(e) => return Err(e),
        };
        if node.children.len() < 2 {
            return Err(invalid_rule(node));
        }
        let body = match Statement::build(&node.children[1]) {
            Ok(b) => b,
            Err(e) => return Err(e),
        };
        Ok(WhileControl { condition, then_block: Box::new(body) })
    }
}

impl Program {
    /// Builds a program from its top-level nodes: at most one shared block,
    /// at most one main block (a later one replaces an earlier one), and an
    /// end marker after which nothing is read. Its position is that of the
    /// first node.
    pub fn build(nodes: &Vec<ParseNode>) -> (r: AlthreadResult<Program>)
        requires
            nodes@.len() > 0,
        ensures
            only_invalid_rule(r),
            r matches Ok(p) ==> p.line == nodes@[0].pos.line && p.column == nodes@[0].pos.column
                && (p.main_block is Some <==> has_block(nodes@, Rule::MainBlock))
                && (p.shared_block is Some <==> has_block(nodes@, Rule::SharedBlock)),
            program_ok(nodes@) ==> r is Ok,
    {
        let mut program = Program {
            main_block: None,
            shared_block: None,
            line: nodes[0].pos.line,
            column: nodes[0].pos.column,
        };
        let mut i: usize = 0;
        while i < nodes.len()
            invariant
                i <= nodes@.len(),
                program.line == nodes@[0].pos.line,
                program.column == nodes@[0].pos.column,
                before_end(nodes@, i as int),
                program.main_block is Some <==> exists|j: int| 0 <= j < i && (#[trigger] nodes@[j]).rule == Rule::MainBlock,
                program.shared_block is Some <==> exists|j: int| 0 <= j < i && (#[trigger] nodes@[j]).rule == Rule::SharedBlock,
            decreases nodes@.len() - i,
        {
            let n = &nodes[i];
            assert(program_ok(nodes@) && n.rule != Rule::Eoi ==> scope_ok(nodes@[i as int]));
            match n.rule {
                Rule::MainBlock => match Scope::build(n) {
                    Ok(b) => program.main_block = Some(b),
                    Err(e) => return Err(e),
                },
                Rule::SharedBlock => match Scope::build(n) {
                    Ok(b) => program.shared_block = Some(b),
                    Err(e) => return Err(e),
                },
                Rule::Eoi => {
                    proof {
                        lemma_has_block(nodes@, i as int, Rule::MainBlock);
                        lemma_has_block(nodes@, i as int, Rule::SharedBlock);
                    }
                    return Ok(program);
                },
                _ => return Err(invalid_rule(n)),
            }
            assert(before_end(nodes@, i + 1));
            i = i + 1;
        }
        proof {
            lemma_has_block(nodes@, i as int, Rule::MainBlock);
            lemma_has_block(nodes@, i as int, Rule::SharedBlock);
        }
        Ok(program)
    }
}

} // verus!
