use vstd::prelude::*;
use crate::ast::{
    Assignment, BinaryAssignment, BinaryAssignmentOperator, Declaration, Expression, IfControl,
    Node, Scope, Statement, WhileControl,
};
use crate::datatype::Literal;
use crate::env::{Environment, binding_value};
use crate::error::{AlthreadError, AlthreadResult, ErrorType, Pos};

verus! {

/// The evaluation state of one compound statement in progress: how far it
/// has got, and the state of the nested statement it is running.
#[derive(Debug)]
pub struct ProcessEnv {
    pub position: usize,
    pub child: Option<Box<ProcessEnv>>,
}

impl ProcessEnv {
    /// A state at the start of a statement.
    pub fn new() -> (r: Self)
        ensures
            r.position == 0,
            r.child is None,
    {
        ProcessEnv { position: 0, child: None }
    }

    /// Takes out the nested state, a fresh one when there is none.
    pub fn get_child(&mut self) -> (r: ProcessEnv)
        ensures
            final(self).position == old(self).position,
            final(self).child is None,
            r == match old(self).child {
                Some(c) => *c,
                None => ProcessEnv { position: 0, child: None },
            },
    {
        match self.child.take() {
            Some(c) => *c,
            None => ProcessEnv::new(),
        }
    }
}

/// The value of an expression under bindings `bs`; `None` for a read of an
/// unbound variable.
pub open spec fn expr_value(e: Expression, bs: Seq<(Seq<char>, Literal)>) -> Option<Literal> {
    match e {
        Expression::Literal(l) => Some(l),
        Expression::Identifier(n) => binding_value(bs, n@),
    }
}

/// Every statement can start from a fresh state.
pub proof fn lemma_fresh_resumable(st: Statement)
    ensures
        resumable(st, ProcessEnv { position: 0, child: None }),
{
    match st {
        Statement::Scope(n) => {
            assert(scope_resumable(n.value, ProcessEnv { position: 0, child: None }));
        },
        _ => {},
    }
}

/// Evaluates an expression.
pub fn eval_expression(e: &Node<Expression>, mem: &Environment) -> (r: AlthreadResult<Literal>)
    ensures
        match expr_value(e.value, mem.bindings()) {
            Some(v) => r == Ok::<Literal, AlthreadError>(v),
            None => (r matches Err(x) && x.error_type == ErrorType::VariableError && x.pos == Some(e.pos)
                && (e.value matches Expression::Identifier(n) && x.subject@ == n@)),
        },
{
    match &e.value {
        Expression::Literal(l) => Ok(l.duplicate()),
        Expression::Identifier(n) => match mem.get_symbol(n) {
            Some(v) => Ok(v),
            None => Err(AlthreadError::new(ErrorType::VariableError, Some(e.pos), n.clone(), None)),
        },
    }
}

/// Whether `env` is a state that `st` can resume from.
pub open spec fn resumable(st: Statement, env: ProcessEnv) -> bool
    decreases st,
{
    match st {
        Statement::If(n) => if_resumable(n.value, env),
        Statement::While(n) => while_resumable(n.value, env),
        Statement::Scope(n) => scope_resumable(n.value, env),
        _ => true,
    }
}

/// Whether `env` is a state that the conditional can resume from: position
/// 0 before its condition, 1 in its then-branch, 2 in its else-branch.
pub open spec fn if_resumable(c: IfControl, env: ProcessEnv) -> bool
    decreases c,
{
    ||| env.position == 0
    ||| env.position == 1 && match env.child {
        Some(ch) => scope_resumable(c.then_block.value, *ch),
        None => true,
    }
    ||| env.position == 2 && match c.else_block {
        Some(b) => match env.child {
            Some(ch) => scope_resumable(b.value, *ch),
            None => true,
        },
        None => false,
    }
}

/// Whether `env` is a state that the loop can resume from: position 0
/// before its condition, 1 in its body.
pub open spec fn while_resumable(w: WhileControl, env: ProcessEnv) -> bool
    decreases w,
{
    ||| env.position == 0
    ||| env.position == 1 && match env.child {
        Some(ch) => resumable(w.then_block.value, *ch),
        None => true,
    }
}

/// Whether `env` is a state that the scope can resume from: position 0
/// before entering it, `k + 1` while running its child `k`.
pub open spec fn scope_resumable(s: Scope, env: ProcessEnv) -> bool
    decreases s,
{
    &&& env.position <= s.children@.len()
    &&& env.position >= 1 ==> match env.child {
        Some(c) => resumable(s.children@[env.position - 1].value, *c),
        None => true,
    }
}

/// The value a variable holding `current` gets from `op` with `v`;
/// `None` when the operator does not apply to the values.
pub open spec fn assigned(op: BinaryAssignmentOperator, current: Literal, v: Literal) -> Option<Literal> {
    match op {
        BinaryAssignmentOperator::Assign => Some(v),
        BinaryAssignmentOperator::AddAssign => match (current, v) {
            (Literal::Int(a), Literal::Int(b)) => if i64::MIN <= a + b <= i64::MAX {
                Some(Literal::Int((a + b) as i64))
            } else {
                None
            },
            _ => None,
        },
        BinaryAssignmentOperator::SubAssign => match (current, v) {
            (Literal::Int(a), Literal::Int(b)) => if i64::MIN <= a - b <= i64::MAX {
                Some(Literal::Int((a - b) as i64))
            } else {
                None
            },
            _ => None,
        },
    }
}

fn apply_operator(op: BinaryAssignmentOperator, current: &Literal, v: Literal) -> (r: Option<Literal>)
    ensures
        r == assigned(op, *current, v),
{
    match op {
        BinaryAssignmentOperator::Assign => Some(v),
        BinaryAssignmentOperator::AddAssign => match (current, &v) {
            (Literal::Int(a), Literal::Int(b)) => match a.checked_add(*b) {
                Some(c) => Some(Literal::Int(c)),
                None => None,
            },
            _ => None,
        },
        BinaryAssignmentOperator::SubAssign => match (current, &v) {
            (Literal::Int(a), Literal::Int(b)) => match a.checked_sub(*b) {
                Some(c) => Some(Literal::Int(c)),
                None => None,
            },
            _ => None,
        },
    }
}

/// The part of an environment that evaluation reads: the bindings and the
/// scope marks.
pub type MemView = (Seq<(Seq<char>, Literal)>, Seq<usize>);

/// The outcome of a step, with an error seen as its kind, position and
/// subject.
pub type Outcome = Result<Option<Literal>, (ErrorType, Option<Pos>, Seq<char>)>;

pub open spec fn mem_view(m: Environment) -> MemView {
    (m.bindings(), m.scopes@)
}

pub open spec fn err_view(e: AlthreadError) -> (ErrorType, Option<Pos>, Seq<char>) {
    (e.error_type, e.pos, e.subject@)
}

pub open spec fn outcome(r: AlthreadResult<Option<Literal>>) -> Outcome {
    match r {
        Ok(v) => Ok(v),
        Err(e) => Err(err_view(e)),
    }
}

pub open spec fn open_scope(m: MemView) -> MemView {
    (m.0, m.1.push(m.0.len() as usize))
}

pub open spec fn close_scope(m: MemView) -> MemView {
    if m.1.len() == 0 {
        m
    } else {
        (m.0.take(m.1.last() as int), m.1.drop_last())
    }
}

/// The nested state a step resumes: the recorded one, else a fresh one.
pub open spec fn child_of(e: ProcessEnv) -> ProcessEnv {
    match e.child {
        Some(c) => *c,
        None => ProcessEnv { position: 0, child: None },
    }
}

/// The value of an expression, or the error of reading an unbound name.
pub open spec fn expr_outcome(e: Node<Expression>, m: MemView) -> Result<Literal, (ErrorType, Option<Pos>, Seq<char>)> {
    match expr_value(e.value, m.0) {
        Some(v) => Ok(v),
        None => Err((ErrorType::VariableError, Some(e.pos), match e.value {
            Expression::Identifier(n) => n@,
            _ => Seq::empty(),
        })),
    }
}

/// The step of an assignment.
pub open spec fn assign_step(b: BinaryAssignment, m: MemView) -> (MemView, Outcome) {
    match expr_outcome(b.value, m) {
        Err(x) => (m, Err(x)),
        Ok(v) => match crate::env::binding_index(m.0, b.identifier.value@) {
            None => (m, Err((ErrorType::VariableError, Some(b.identifier.pos), b.identifier.value@))),
            Some(i) => match assigned(b.operator.value, m.0[i].1, v) {
                None => (m, Err((ErrorType::TypeError, Some(b.operator.pos), b.identifier.value@))),
                Some(nv) => ((m.0.update(i, (b.identifier.value@, nv)), m.1), Ok(Some(Literal::Null))),
            },
        },
    }
}

/// The step of a declaration.
pub open spec fn declaration_step(d: Declaration, m: MemView) -> (MemView, Outcome) {
    let v = match d.value {
        Some(e) => expr_outcome(e, m),
        None => Ok(Literal::Null),
    };
    match v {
        Err(x) => (m, Err(x)),
        Ok(v) => ((m.0.push((d.identifier.value@, v)), m.1), Ok(Some(Literal::Null))),
    }
}

/// The step of an atomic statement: its whole evaluation.
pub open spec fn atomic_step(s: Statement, m: MemView) -> (MemView, Outcome) {
    match s {
        Statement::Assignment(n) => match n.value {
            Assignment::Binary(b) => assign_step(b.value, m),
        },
        Statement::Declaration(n) => declaration_step(n.value, m),
        Statement::Expression(n) => match expr_outcome(n, m) {
            Ok(v) => (m, Ok(Some(v))),
            Err(x) => (m, Err(x)),
        },
        Statement::FnCall(n) => match expr_outcome(n.value.argument, m) {
            Ok(_) => (m, Ok(Some(Literal::Null))),
            Err(x) => (m, Err(x)),
        },
        _ => (m, Ok(Some(Literal::Null))),
    }
}

/// One step of a statement from state `e` and memory `m`: the new state,
/// the new memory and the outcome (`Ok(None)` when not complete).
pub open spec fn step(s: Statement, e: ProcessEnv, m: MemView) -> (ProcessEnv, MemView, Outcome)
    decreases s, 0nat,
{
    match s {
        Statement::If(n) => if_step(n.value, e, m),
        Statement::While(n) => while_step(n.value, e, m),
        Statement::Scope(n) => scope_step(n.value, e, m),
        _ => (e, atomic_step(s, m).0, atomic_step(s, m).1),
    }
}

/// One step of a conditional: at position 0 the condition decides between
/// position 1 (then), 2 (else) or completion; at position 1 or 2 the
/// branch's own step, completing the conditional when it completes.
pub open spec fn if_step(c: IfControl, e: ProcessEnv, m: MemView) -> (ProcessEnv, MemView, Outcome)
    decreases c, 0nat,
{
    if e.position == 0 {
        match expr_outcome(c.condition, m) {
            Err(x) => (e, m, Err(x)),
            Ok(v) => if v.truth() {
                (ProcessEnv { position: 1, child: None }, m, Ok(None))
            } else if c.else_block is Some {
                (ProcessEnv { position: 2, child: None }, m, Ok(None))
            } else {
                (e, m, Ok(Some(Literal::Null)))
            },
        }
    } else if e.position != 1 && c.else_block is None {
        (e, m, Ok(Some(Literal::Null)))
    } else {
        let b = if e.position == 1 { c.then_block.value } else { c.else_block->Some_0.value };
        let (c1, m1, rc) = scope_step(b, child_of(e), m);
        match rc {
            Ok(None) => (ProcessEnv { position: e.position, child: Some(Box::new(c1)) }, m1, Ok(None)),
            Ok(Some(_)) => (ProcessEnv { position: e.position, child: None }, m1, Ok(Some(Literal::Null))),
            Err(x) => (ProcessEnv { position: e.position, child: None }, m1, Err(x)),
        }
    }
}

/// One step of a loop: at position 0 the condition decides between the
/// body (position 1) and completion; at position 1 the body's own step,
/// going back to position 0 when the body completes.
pub open spec fn while_step(w: WhileControl, e: ProcessEnv, m: MemView) -> (ProcessEnv, MemView, Outcome)
    decreases w, 0nat,
{
    if e.position == 0 {
        match expr_outcome(w.condition, m) {
            Err(x) => (e, m, Err(x)),
            Ok(v) => if v.truth() {
                (ProcessEnv { position: 1, child: None }, m, Ok(None))
            } else {
                (e, m, Ok(Some(Literal::Null)))
            },
        }
    } else {
        let (c1, m1, rc) = step(w.then_block.value, child_of(e), m);
        match rc {
            Ok(None) => (ProcessEnv { position: e.position, child: Some(Box::new(c1)) }, m1, Ok(None)),
            Ok(Some(_)) => (ProcessEnv { position: 0, child: None }, m1, Ok(None)),
            Err(x) => (ProcessEnv { position: e.position, child: None }, m1, Err(x)),
        }
    }
}

/// One step of a block: entering opens a scope and moves to position 1;
/// at position `k + 1` child `k` takes a step, and when it completes the
/// block moves to the next child, or, after the last, closes its scope and
/// completes with `null`.
pub open spec fn scope_step(sc: Scope, e: ProcessEnv, m: MemView) -> (ProcessEnv, MemView, Outcome)
    decreases sc, 0nat,
{
    let e0 = if e.position == 0 { ProcessEnv { position: 1, child: None } } else { e };
    let m0 = if e.position == 0 { open_scope(m) } else { m };
    let k = e0.position - 1;
    if k >= sc.children@.len() {
        (e0, close_scope(m0), Ok(Some(Literal::Null)))
    } else {
        let (c1, m1, rc) = step(sc.children@[k].value, child_of(e0), m0);
        match rc {
            Err(x) => (ProcessEnv { position: e0.position, child: None }, m1, Err(x)),
            Ok(None) => (ProcessEnv { position: e0.position, child: Some(Box::new(c1)) }, m1, Ok(None)),
            Ok(Some(_)) => if k + 1 == sc.children@.len() {
                (ProcessEnv { position: e0.position, child: None }, close_scope(m1), Ok(Some(Literal::Null)))
            } else {
                (ProcessEnv { position: (k + 2) as usize, child: None }, m1, Ok(None))
            },
        }
    }
}

impl BinaryAssignment {
    /// Evaluates the value and stores it, combined by the operator, in the
    /// most recent binding of the identifier: `assign_step`.
    pub fn eval(&self, mem: &mut Environment) -> (r: AlthreadResult<Option<Literal>>)
        requires
            old(mem).wf(),
        ensures
            final(mem).wf(),
            (mem_view(*final(mem)), outcome(r)) == assign_step(*self, mem_view(*old(mem))),
    {
        proof { crate::env::lemma_binding_index_bound(mem.bindings(), self.identifier.value@); }
        let v = match eval_expression(&self.value, mem) {
            Ok(v) => v,
            Err(e) => return Err(e),
        };
        let current = match mem.get_symbol(&self.identifier.value) {
            Some(c) => c,
            None => return Err(AlthreadError::new(ErrorType::VariableError, Some(self.identifier.pos), self.identifier.value.clone(), None)),
        };
        let new_value = match apply_operator(self.operator.value, &current, v) {
            Some(n) => n,
            None => return Err(AlthreadError::new(ErrorType::TypeError, Some(self.operator.pos), self.identifier.value.clone(), None)),
        };
        match mem.update_symbol(&self.identifier.value, new_value) {
            Ok(()) => Ok(Some(Literal::Null)),
            Err(()) => Err(AlthreadError::new(ErrorType::VariableError, Some(self.identifier.pos), self.identifier.value.clone(), None)),
        }
    }
}

impl Declaration {
    /// Evaluates the value, `null` when there is none, and binds the
    /// identifier to it in the innermost scope: `declaration_step`.
    pub fn eval(&self, mem: &mut Environment) -> (r: AlthreadResult<Option<Literal>>)
        requires
            old(mem).wf(),
        ensures
            final(mem).wf(),
            (mem_view(*final(mem)), outcome(r)) == declaration_step(*self, mem_view(*old(mem))),
    {
        let v = match &self.value {
            Some(e) => match eval_expression(e, mem) {
                Ok(v) => v,
                Err(e) => return Err(e),
            },
            None => Literal::Null,
        };
        mem.insert_symbol(self.identifier.value.clone(), v);
        Ok(Some(Literal::Null))
    }
}

impl IfControl {
    /// One step of a conditional: `if_step`.
    pub fn eval(&self, env: &mut ProcessEnv, mem: &mut Environment) -> (r: AlthreadResult<Option<Literal>>)
        requires
            old(mem).wf(),
            if_resumable(*self, *old(env)),
        ensures
            final(mem).wf(),
            (*final(env), mem_view(*final(mem)), outcome(r)) == if_step(*self, *old(env), mem_view(*old(mem))),
            r matches Ok(None) ==> if_resumable(*self, *final(env)),
        decreases self,
    {
        if env.position == 0 {
            let c = match eval_expression(&self.condition, mem) {
                Ok(c) => c,
                Err(e) => return Err(e),
            };
            if c.is_true() {
                env.position = 1;
                env.child = None;
                Ok(None)
            } else if self.else_block.is_some() {
                env.position = 2;
                env.child = None;
                Ok(None)
            } else {
                Ok(Some(Literal::Null))
            }
        } else {
            let block = if env.position == 1 {
                &self.then_block
            } else {
                match &self.else_block {
                    Some(b) => b,
                    None => return Ok(Some(Literal::Null)),
                }
            };
            let mut child = env.get_child();
            proof { lemma_fresh_resumable(Statement::Scope(Node { value: block.value, pos: block.pos })); }
            match block.value.eval(&mut child, mem) {
                Err(e) => Err(e),
                Ok(None) => {
                    env.child = Some(Box::new(child));
                    Ok(None)
                },
                Ok(Some(_)) => Ok(Some(Literal::Null)),
            }
        }
    }
}

impl WhileControl {
    /// One step of a loop: `while_step`.
    pub fn eval(&self, env: &mut ProcessEnv, mem: &mut Environment) -> (r: AlthreadResult<Option<Literal>>)
        requires
            old(mem).wf(),
            while_resumable(*self, *old(env)),
        ensures
            final(mem).wf(),
            (*final(env), mem_view(*final(mem)), outcome(r)) == while_step(*self, *old(env), mem_view(*old(mem))),
            r matches Ok(None) ==> while_resumable(*self, *final(env)),
            !(r matches Ok(Some(_))) || old(env).position == 0,
        decreases self,
    {
        if env.position == 0 {
            let c = match eval_expression(&self.condition, mem) {
                Ok(c) => c,
                Err(e) => return Err(e),
            };
            if c.is_true() {
                env.position = 1;
                env.child = None;
                Ok(None)
            } else {
                Ok(Some(Literal::Null))
            }
        } else {
            let mut child = env.get_child();
            proof { lemma_fresh_resumable(self.then_block.value); }
            match self.then_block.value.eval(&mut child, mem) {
                Err(e) => Err(e),
                Ok(None) => {
                    env.child = Some(Box::new(child));
                    Ok(None)
                },
                Ok(Some(_)) => {
                    env.position = 0;
                    Ok(None)
                },
            }
        }
    }
}

impl Scope {
    /// One step of a block: `scope_step`.
    pub fn eval(&self, env: &mut ProcessEnv, mem: &mut Environment) -> (r: AlthreadResult<Option<Literal>>)
        requires
            old(mem).wf(),
            scope_resumable(*self, *old(env)),
        ensures
            final(mem).wf(),
            (*final(env), mem_view(*final(mem)), outcome(r)) == scope_step(*self, *old(env), mem_view(*old(mem))),
            r matches Ok(None) ==> scope_resumable(*self, *final(env)) && final(env).position >= 1,
            r matches Ok(Some(v)) ==> v == Literal::Null,
        decreases self,
    {
        if env.position == 0 {
            mem.push_scope();
            env.position = 1;
            env.child = None;
        }
        if env.position - 1 == self.children.len() {
            mem.pop_scope();
            return Ok(Some(Literal::Null));
        }
        let k = env.position - 1;
        let mut child = env.get_child();
        proof { lemma_fresh_resumable(self.children@[k as int].value); }
        proof { assert(decreases_to!(self => self.children)); }
        match self.children[k].value.eval(&mut child, mem) {
            Err(e) => Err(e),
            Ok(None) => {
                env.child = Some(Box::new(child));
                Ok(None)
            },
            Ok(Some(_)) => {
                if k + 1 == self.children.len() {
                    mem.pop_scope();
                    Ok(Some(Literal::Null))
                } else {
                    env.position = k + 2;
                    Ok(None)
                }
            },
        }
    }
}

impl Statement {
    /// One step of the statement, `step`: `None` when it must be called
    /// again to go on, else the value it completes with. An atomic statement
    /// completes in one call.
    pub fn eval(&self, env: &mut ProcessEnv, mem: &mut Environment) -> (r: AlthreadResult<Option<Literal>>)
        requires
            old(mem).wf(),
            resumable(*self, *old(env)),
        ensures
            final(mem).wf(),
            (*final(env), mem_view(*final(mem)), outcome(r)) == step(*self, *old(env), mem_view(*old(mem))),
            r matches Ok(None) ==> resumable(*self, *final(env)),
            self.atomic() ==> !(r matches Ok(None)),
        decreases self,
    {
        match self {
            Statement::Assignment(n) => match &n.value {
                Assignment::Binary(b) => b.value.eval(mem),
            },
            Statement::Declaration(n) => n.value.eval(mem),
            Statement::Expression(n) => match eval_expression(n, mem) {
                Ok(v) => Ok(Some(v)),
                Err(e) => Err(e),
            },
            Statement::FnCall(n) => match eval_expression(&n.value.argument, mem) {
                Ok(_) => Ok(Some(Literal::Null)),
                Err(e) => Err(e),
            },
            Statement::Run(_) => Ok(Some(Literal::Null)),
            Statement::If(n) => n.value.eval(env, mem),
            Statement::While(n) => n.value.eval(env, mem),
            Statement::Scope(n) => n.value.eval(env, mem),
        }
    }
}

} // verus!
