use vstd::prelude::*;
use crate::ast::{
    Assignment, BinaryAssignment, Declaration, Expression, FnCall, IfControl, Node, RunCall,
    Scope, Statement, WhileControl,
};
use crate::error::{AlthreadError, AlthreadResult, ErrorType, Pos};
use crate::instruction::{
    DeclarationControl, GlobalAssignmentControl, IfJump, Instruction, InstructionType, ProcessCode,
};
use crate::registry::{CompilerState, Var};

verus! {

/// Whether the jump of `c`, standing at index `k` of code of length `len`,
/// lands within the code or just past its end.
pub open spec fn jump_in_range(c: InstructionType, k: int, len: int) -> bool {
    match c {
        InstructionType::If(j) => k + j.jump_true <= len && k + j.jump_false <= len,
        InstructionType::Jump(o) => k + o <= len,
        InstructionType::JumpBack(o) => o <= k,
        _ => true,
    }
}

/// Whether every jump of `code` lands within it or just past its end.
pub open spec fn jumps_in_range(code: Seq<Instruction>) -> bool {
    forall|k: int| 0 <= k < code.len() ==> #[trigger] jump_in_range(code[k].control, k, code.len() as int)
}

/// Whether `c` is a jump.
pub open spec fn is_jump(c: InstructionType) -> bool {
    c is If || c is Jump || c is JumpBack
}

/// Appending instructions without jumps keeps every jump in range.
pub proof fn lemma_append_plain(code: Seq<Instruction>, block: Seq<Instruction>)
    requires
        jumps_in_range(code),
        plain_block(block),
    ensures
        jumps_in_range(code + block),
{
    let all = code + block;
    assert forall|k: int| 0 <= k < all.len() implies #[trigger] jump_in_range(all[k].control, k, all.len() as int) by {
        if k < code.len() {
            assert(all[k] == code[k]);
            assert(jump_in_range(code[k].control, k, code.len() as int));
        } else {
            assert(all[k] == block[k - code.len()]);
        }
    }
}

/// Whether no instruction of `block` jumps.
pub open spec fn plain_block(block: Seq<Instruction>) -> bool {
    forall|k: int| 0 <= k < block.len() ==> !is_jump(#[trigger] block[k].control)
}

/// What a compiled instruction is, apart from its dependency list: its
/// control, its position and whether the next one shares its step.
pub type InstrView = (InstructionType, Option<Pos>, bool);

pub open spec fn views(s: Seq<Instruction>) -> Seq<InstrView> {
    s.map_values(|i: Instruction| (i.control, i.pos, i.continues_step))
}

/// Whether no instruction of `s` has dependencies recorded.
pub open spec fn fresh(s: Seq<Instruction>) -> bool {
    forall|k: int| 0 <= k < s.len() ==> (#[trigger] s[k]).dependencies@.len() == 0
}

pub open spec fn expr_code(e: Node<Expression>) -> InstrView {
    (InstructionType::Expression(e.value), Some(e.pos), true)
}

/// The code of an assignment.
pub open spec fn assign_code(b: BinaryAssignment) -> Seq<InstrView> {
    seq![
        expr_code(b.value),
        (InstructionType::GlobalAssignment(GlobalAssignmentControl {
            identifier: b.identifier.value,
            operator: b.operator.value,
        }), Some(b.identifier.pos), false),
    ]
}

/// The code of a declaration.
pub open spec fn declaration_code(d: Declaration) -> Seq<InstrView> {
    let decl = (InstructionType::Declaration(DeclarationControl {
        identifier: d.identifier.value,
        datatype: d.datatype,
        with_value: d.value is Some,
    }), Some(d.identifier.pos), false);
    match d.value {
        Some(e) => seq![expr_code(e), decl],
        None => seq![decl],
    }
}

/// The code of a function call.
pub open spec fn fn_call_code(f: FnCall) -> Seq<InstrView> {
    seq![expr_code(f.argument), (InstructionType::FnCall(f.name.value), Some(f.name.pos), false)]
}

/// The code of a process start.
pub open spec fn run_code(r: RunCall) -> Seq<InstrView> {
    seq![(InstructionType::Run(r.program.value), Some(r.program.pos), false)]
}

/// The code of an atomic statement; empty for the others.
pub open spec fn atomic_code(s: Statement) -> Seq<InstrView> {
    match s {
        Statement::Assignment(n) => match n.value {
            Assignment::Binary(b) => assign_code(b.value),
        },
        Statement::Declaration(n) => declaration_code(n.value),
        Statement::Expression(n) => seq![(InstructionType::Expression(n.value), Some(n.pos), false)],
        Statement::FnCall(n) => fn_call_code(n.value),
        Statement::Run(n) => run_code(n.value),
        _ => Seq::empty(),
    }
}

/// The code that flattening a statement appends.
pub open spec fn flat_stmt(s: Statement) -> Seq<InstrView>
    decreases s, 0nat,
{
    match s {
        Statement::If(n) => flat_if(n.value),
        Statement::While(n) => flat_while(n.value),
        Statement::Scope(n) => flat_children(n.value, n.value.children@.len()),
        _ => atomic_code(s),
    }
}

/// The code of the first `k` children of a scope, in order.
pub open spec fn flat_children(sc: Scope, k: nat) -> Seq<InstrView>
    decreases sc, k,
{
    if k == 0 || k > sc.children@.len() {
        Seq::empty()
    } else {
        flat_children(sc, (k - 1) as nat) + flat_stmt(sc.children@[k - 1].value)
    }
}

/// The code of a scope: that of its children, in order.
pub open spec fn flat_scope(sc: Scope) -> Seq<InstrView> {
    flat_children(sc, sc.children@.len())
}

/// The code of a conditional: the conditional jump, the then-branch, and,
/// with an else-branch, a jump over it followed by the else-branch. The
/// false jump lands just past the then-branch (and its jump).
pub open spec fn flat_if(c: IfControl) -> Seq<InstrView>
    decreases c, 0nat,
{
    let t = flat_children(c.then_block.value, c.then_block.value.children@.len());
    match c.else_block {
        None => seq![(InstructionType::If(IfJump {
            condition: c.condition.value,
            jump_true: 1,
            jump_false: (t.len() + 1) as usize,
        }), Some(c.condition.pos), false)] + t,
        Some(e) => {
            let el = flat_children(e.value, e.value.children@.len());
            seq![(InstructionType::If(IfJump {
                condition: c.condition.value,
                jump_true: 1,
                jump_false: (t.len() + 2) as usize,
            }), Some(c.condition.pos), false)] + t
                + seq![(InstructionType::Jump((el.len() + 1) as usize), Some(e.pos), false)] + el
        },
    }
}

/// The code of a loop: the conditional jump, the body, and a jump back to
/// the conditional; the false jump lands just past the jump back.
pub open spec fn flat_while(w: WhileControl) -> Seq<InstrView>
    decreases w, 0nat,
{
    let b = flat_stmt(w.then_block.value);
    seq![(InstructionType::If(IfJump {
        condition: w.condition.value,
        jump_true: 1,
        jump_false: (b.len() + 2) as usize,
    }), Some(w.condition.pos), false)] + b
        + seq![(InstructionType::JumpBack((b.len() + 1) as usize), Some(w.condition.pos), false)]
}

/// Jump targets of a conditional: a true condition goes to the next
/// instruction; a false one lands just past the then-branch, which is the
/// end without an else-branch, and the else-branch's first instruction with
/// one, where the then-branch ends with a jump past the else-branch.
pub proof fn law_if_jump_targets(c: IfControl)
    ensures
        ({
            let code = flat_if(c);
            let t = flat_scope(c.then_block.value);
            &&& code[0].0 matches InstructionType::If(j) && j.jump_true == 1 && j.condition == c.condition.value
            &&& code.subrange(1, t.len() + 1int) == t
            &&& c.else_block is None ==> code.len() == t.len() + 1
                && code[0].0 == InstructionType::If(IfJump {
                    condition: c.condition.value,
                    jump_true: 1,
                    jump_false: (t.len() + 1int) as usize,
                })
            &&& c.else_block matches Some(e) ==> ({
                let el = flat_scope(e.value);
                &&& code.len() == t.len() + 2 + el.len()
                &&& code[0].0 == InstructionType::If(IfJump {
                    condition: c.condition.value,
                    jump_true: 1,
                    jump_false: (t.len() + 2) as usize,
                })
                &&& code[t.len() + 1int].0 == InstructionType::Jump((el.len() + 1) as usize)
                &&& code.subrange(t.len() + 2int, code.len() as int) == el
            })
        }),
{
    let t = flat_scope(c.then_block.value);
    let code = flat_if(c);
    assert(code.subrange(1, t.len() + 1int) =~= t);
    if let Some(e) = c.else_block {
        let el = flat_scope(e.value);
        assert(code.subrange(t.len() + 2int, code.len() as int) =~= el);
    }
}

pub proof fn lemma_views_add(a: Seq<Instruction>, b: Seq<Instruction>)
    ensures
        views(a + b) == views(a) + views(b),
        fresh(a) && fresh(b) ==> fresh(a + b),
{
    assert(views(a + b) =~= views(a) + views(b));
    if fresh(a) && fresh(b) {
        assert forall|k: int| 0 <= k < (a + b).len() implies (#[trigger] (a + b)[k]).dependencies@.len() == 0 by {
            if k < a.len() {
                assert((a + b)[k] == a[k]);
            } else {
                assert((a + b)[k] == b[k - a.len()]);
            }
        }
    }
}

/// Jumps in range in two pieces stay in range once the pieces are joined.
pub proof fn lemma_concat_jumps(a: Seq<Instruction>, b: Seq<Instruction>)
    requires
        jumps_in_range(a),
        jumps_in_range(b),
    ensures
        jumps_in_range(a + b),
{
    let all = a + b;
    assert forall|k: int| 0 <= k < all.len() implies #[trigger] jump_in_range(all[k].control, k, all.len() as int) by {
        if k < a.len() {
            assert(all[k] == a[k]);
            assert(jump_in_range(a[k].control, k, a.len() as int));
        } else {
            assert(all[k] == b[k - a.len()]);
            assert(jump_in_range(b[k - a.len()].control, k - a.len(), b.len() as int));
        }
    }
}

/// Whether `block` is one scheduler step: no boundary inside, one at its end.
pub open spec fn atomic_block(block: Seq<Instruction>) -> bool {
    &&& block.len() >= 1
    &&& forall|k: int| 0 <= k < block.len() - 1 ==> #[trigger] block[k].continues_step
    &&& !block.last().continues_step
}

/// Whether the state's channels and program are those of `old`.
pub open spec fn same_channels(new: CompilerState, old: CompilerState) -> bool {
    &&& new.channels == old.channels
    &&& new.undefined_channels == old.undefined_channels
    &&& new.current_program_name == old.current_program_name
}

/// Whether `new`'s variable stack extends `old`'s.
pub open spec fn stack_extends(new: CompilerState, old: CompilerState) -> bool {
    &&& new.program_stack@.len() >= old.program_stack@.len()
    &&& new.program_stack@.take(old.program_stack@.len() as int) == old.program_stack@
}

fn plain(control: InstructionType, pos: Pos, continues_step: bool) -> (r: Instruction)
    ensures
        r.control == control,
        r.pos == Some(pos),
        r.continues_step == continues_step,
        r.dependencies@.len() == 0,
{
    Instruction { control, pos: Some(pos), dependencies: Vec::new(), continues_step }
}

/// The instruction that evaluates an expression and pushes its value.
pub fn compile_expression(e: &Node<Expression>) -> (r: Instruction)
    ensures
        r.control == InstructionType::Expression(e.value),
        r.pos == Some(e.pos),
        r.continues_step,
        r.dependencies@.len() == 0,
{
    plain(InstructionType::Expression(e.value.duplicate()), e.pos, true)
}

impl BinaryAssignment {
    /// The value's evaluation, then the assignment, as one step.
    pub fn compile(&self) -> (r: Vec<Instruction>)
        ensures
            atomic_block(r@),
            plain_block(r@),
            views(r@) == assign_code(*self),
            fresh(r@),
            r@.len() == 2,
            r@[0].control == InstructionType::Expression(self.value.value),
            r@[1].control matches InstructionType::GlobalAssignment(g)
                && g.identifier@ == self.identifier.value@ && g.operator == self.operator.value,
    {
        let mut v: Vec<Instruction> = Vec::new();
        v.push(compile_expression(&self.value));
        let g = GlobalAssignmentControl { identifier: self.identifier.value.clone(), operator: self.operator.value };
        v.push(plain(InstructionType::GlobalAssignment(g), self.identifier.pos, false));
        assert(!is_jump(v@[0].control) && !is_jump(v@[1].control));
        assert(views(v@) =~= assign_code(*self));
        v
    }
}

impl Declaration {
    /// The value's evaluation, if any, then the declaration, as one step;
    /// the variable goes on top of the variable stack.
    pub fn compile(&self, state: &mut CompilerState) -> (r: Vec<Instruction>)
        ensures
            atomic_block(r@),
            plain_block(r@),
            views(r@) == declaration_code(*self),
            fresh(r@),
            r@.len() == if self.value is Some { 2int } else { 1int },
            r@.last().control matches InstructionType::Declaration(d)
                && d.identifier@ == self.identifier.value@ && d.datatype@ == self.datatype@
                && d.with_value == self.value is Some,
            final(state).stack() == old(state).stack().push((self.identifier.value@, self.datatype@)),
            same_channels(*final(state), *old(state)),
            stack_extends(*final(state), *old(state)),
    {
        let mut v: Vec<Instruction> = Vec::new();
        if let Some(e) = &self.value {
            v.push(compile_expression(e));
        }
        let d = DeclarationControl {
            identifier: self.identifier.value.clone(),
            datatype: self.datatype.duplicate(),
            with_value: self.value.is_some(),
        };
        v.push(plain(InstructionType::Declaration(d), self.identifier.pos, false));
        assert(forall|k: int| 0 <= k < v@.len() ==> !is_jump(#[trigger] v@[k].control));
        assert(views(v@) =~= declaration_code(*self));
        let var = Var { name: self.identifier.value.clone(), datatype: self.datatype.duplicate() };
        state.program_stack.push(var);
        assert(final(state).stack() =~= old(state).stack().push((self.identifier.value@, self.datatype@)));
        assert(state.program_stack@.take(old(state).program_stack@.len() as int) =~= old(state).program_stack@);
        v
    }
}

impl FnCall {
    /// The argument's evaluation, then the call, as one step.
    pub fn compile(&self) -> (r: Vec<Instruction>)
        ensures
            atomic_block(r@),
            plain_block(r@),
            views(r@) == fn_call_code(*self),
            fresh(r@),
            r@.len() == 2,
            r@[0].control == InstructionType::Expression(self.argument.value),
            r@[1].control matches InstructionType::FnCall(n) && n@ == self.name.value@,
    {
        let mut v: Vec<Instruction> = Vec::new();
        v.push(compile_expression(&self.argument));
        v.push(plain(InstructionType::FnCall(self.name.value.clone()), self.name.pos, false));
        assert(!is_jump(v@[0].control) && !is_jump(v@[1].control));
        assert(views(v@) =~= fn_call_code(*self));
        v
    }
}

impl RunCall {
    /// The start of a process, as one step.
    pub fn compile(&self) -> (r: Vec<Instruction>)
        ensures
            atomic_block(r@),
            plain_block(r@),
            views(r@) == run_code(*self),
            fresh(r@),
            r@.len() == 1,
            r@[0].control matches InstructionType::Run(n) && n@ == self.program.value@,
    {
        let mut v: Vec<Instruction> = Vec::new();
        v.push(plain(InstructionType::Run(self.program.value.clone()), self.program.pos, false));
        assert(!is_jump(v@[0].control));
        assert(views(v@) =~= run_code(*self));
        v
    }
}

/// Appends `block` to the code.
fn append_block(code: &mut ProcessCode, block: Vec<Instruction>)
    ensures
        final(code).instructions@ == old(code).instructions@ + block@,
        final(code).instructions@.take(old(code).instructions@.len() as int) == old(code).instructions@,
        final(code).instructions@.skip(old(code).instructions@.len() as int) == block@,
{
    let mut block = block;
    let ghost b = block@;
    code.instructions.append(&mut block);
    assert(code.instructions@.take(old(code).instructions@.len() as int) =~= old(code).instructions@);
    assert(code.instructions@.skip(old(code).instructions@.len() as int) =~= b);
}

/// The jumps of a conditional without an else-branch stay in range.
pub proof fn lemma_if_jumps(x: Instruction, t: Seq<Instruction>)
    requires
        jumps_in_range(t),
        x.control matches InstructionType::If(j) && j.jump_true == 1 && j.jump_false == t.len() + 1,
    ensures
        jumps_in_range(seq![x] + t),
{
    let all = seq![x] + t;
    assert forall|k: int| 0 <= k < all.len() implies #[trigger] jump_in_range(all[k].control, k, all.len() as int) by {
        if k > 0 {
            assert(all[k] == t[k - 1]);
            assert(jump_in_range(t[k - 1].control, k - 1, t.len() as int));
        }
    }
}

/// The jumps of a conditional with an else-branch stay in range.
pub proof fn lemma_if_else_jumps(x: Instruction, t: Seq<Instruction>, y: Instruction, e: Seq<Instruction>)
    requires
        jumps_in_range(t),
        jumps_in_range(e),
        x.control matches InstructionType::If(j) && j.jump_true == 1 && j.jump_false == t.len() + 2,
        y.control == InstructionType::Jump((e.len() + 1) as usize),
    ensures
        jumps_in_range(seq![x] + t + seq![y] + e),
{
    let all = seq![x] + t + seq![y] + e;
    assert forall|k: int| 0 <= k < all.len() implies #[trigger] jump_in_range(all[k].control, k, all.len() as int) by {
        if 0 < k <= t.len() {
            assert(all[k] == t[k - 1]);
            assert(jump_in_range(t[k - 1].control, k - 1, t.len() as int));
        } else if k > t.len() + 1 {
            assert(all[k] == e[k - t.len() - 2]);
            assert(jump_in_range(e[k - t.len() - 2].control, k - t.len() - 2, e.len() as int));
        }
    }
}

/// The jumps of a loop stay in range.
pub proof fn lemma_while_jumps(x: Instruction, b: Seq<Instruction>, y: Instruction)
    requires
        jumps_in_range(b),
        x.control matches InstructionType::If(j) && j.jump_true == 1 && j.jump_false == b.len() + 2,
        y.control == InstructionType::JumpBack((b.len() + 1) as usize),
    ensures
        jumps_in_range(seq![x] + b + seq![y]),
{
    let all = seq![x] + b + seq![y];
    assert forall|k: int| 0 <= k < all.len() implies #[trigger] jump_in_range(all[k].control, k, all.len() as int) by {
        if 0 < k <= b.len() {
            assert(all[k] == b[k - 1]);
            assert(jump_in_range(b[k - 1].control, k - 1, b.len() as int));
        }
    }
}

impl Statement {
    /// The position of the statement.
    pub open spec fn pos(&self) -> Pos {
        match self {
            Statement::Assignment(n) => n.pos,
            Statement::Declaration(n) => n.pos,
            Statement::Expression(n) => n.pos,
            Statement::Run(n) => n.pos,
            Statement::FnCall(n) => n.pos,
            Statement::If(n) => n.pos,
            Statement::While(n) => n.pos,
            Statement::Scope(n) => n.pos,
        }
    }

    pub fn position(&self) -> (r: Pos)
        ensures
            r == self.pos(),
    {
        match self {
            Statement::Assignment(n) => n.pos,
            Statement::Declaration(n) => n.pos,
            Statement::Expression(n) => n.pos,
            Statement::Run(n) => n.pos,
            Statement::FnCall(n) => n.pos,
            Statement::If(n) => n.pos,
            Statement::While(n) => n.pos,
            Statement::Scope(n) => n.pos,
        }
    }

    /// Compiles an atomic statement into its instructions, one scheduler
    /// step; a control-flow statement has no such form and is refused.
    pub fn compile(&self, state: &mut CompilerState) -> (r: AlthreadResult<Vec<Instruction>>)
        ensures
            r is Ok <==> self.atomic(),
            r matches Ok(v) ==> atomic_block(v@) && views(v@) == atomic_code(*self) && fresh(v@),
            r matches Ok(v) ==> plain_block(v@),
            r matches Err(e) ==> e.error_type == ErrorType::UnimplementedFlatten && e.pos == Some(self.pos()),
            same_channels(*final(state), *old(state)),
            stack_extends(*final(state), *old(state)),
            !(self is Declaration) ==> final(state).program_stack == old(state).program_stack,
            self matches Statement::Declaration(d) ==> final(state).stack()
                == old(state).stack().push((d.value.identifier.value@, d.value.datatype@)),
    {
        assert(state.program_stack@.take(state.program_stack@.len() as int) =~= state.program_stack@);
        match self {
            Statement::Assignment(n) => match &n.value {
                Assignment::Binary(b) => Ok(b.value.compile()),
            },
            Statement::Declaration(n) => Ok(n.value.compile(state)),
            Statement::Expression(n) => {
                let mut v: Vec<Instruction> = Vec::new();
                v.push(plain(InstructionType::Expression(n.value.duplicate()), n.pos, false));
                assert(!is_jump(v@[0].control));
                assert(views(v@) =~= atomic_code(*self));
                Ok(v)
            },
            Statement::Run(n) => Ok(n.value.compile()),
            Statement::FnCall(n) => Ok(n.value.compile()),
            _ => {
                Err(AlthreadError::new(ErrorType::UnimplementedFlatten, Some(self.position()), String::new(), None))
            },
        }
    }

    /// Appends the statement's code, `flat_stmt(self)`, to the code: an
    /// atomic statement as one step, a control-flow statement with its jumps
    /// patched. The appended code does not depend on what precedes it.
    pub fn flatten(&self, code: &mut ProcessCode, state: &mut CompilerState)
        ensures
            final(code).instructions@.len() >= old(code).instructions@.len(),
            final(code).instructions@.take(old(code).instructions@.len() as int) == old(code).instructions@,
            views(final(code).instructions@.skip(old(code).instructions@.len() as int)) == flat_stmt(*self),
            fresh(final(code).instructions@.skip(old(code).instructions@.len() as int)),
            jumps_in_range(final(code).instructions@.skip(old(code).instructions@.len() as int)),
            jumps_in_range(old(code).instructions@) ==> jumps_in_range(final(code).instructions@),
            self.atomic() ==> atomic_block(final(code).instructions@.skip(old(code).instructions@.len() as int)),
            same_channels(*final(state), *old(state)),
            stack_extends(*final(state), *old(state)),
        decreases self,
    {
        let ghost code0 = code.instructions@;
        assert(state.program_stack@.take(state.program_stack@.len() as int) =~= state.program_stack@);
        match self {
            Statement::If(n) => n.value.flatten(code, state),
            Statement::While(n) => n.value.flatten(code, state),
            Statement::Scope(n) => n.value.flatten(code, state),
            _ => {
                match self.compile(state) {
                    Ok(block) => {
                        let ghost b = block@;
                        append_block(code, block);
                        proof {
                            lemma_append_plain(Seq::<Instruction>::empty(), b);
                            assert(Seq::<Instruction>::empty() + b =~= b);
                        }
                    },
                    Err(_) => {},
                }
            },
        }
        proof {
            let all = code.instructions@;
            assert(all =~= code0 + all.skip(code0.len() as int));
            if jumps_in_range(code0) {
                lemma_concat_jumps(code0, all.skip(code0.len() as int));
            }
        }
    }
}

impl Scope {
    /// Appends the code of the children in order, `flat_scope(self)`; the
    /// variables they declare go out of scope at the end.
    pub fn flatten(&self, code: &mut ProcessCode, state: &mut CompilerState)
        ensures
            final(code).instructions@.len() >= old(code).instructions@.len(),
            final(code).instructions@.take(old(code).instructions@.len() as int) == old(code).instructions@,
            views(final(code).instructions@.skip(old(code).instructions@.len() as int)) == flat_scope(*self),
            fresh(final(code).instructions@.skip(old(code).instructions@.len() as int)),
            jumps_in_range(final(code).instructions@.skip(old(code).instructions@.len() as int)),
            same_channels(*final(state), *old(state)),
            final(state).program_stack@ == old(state).program_stack@,
        decreases self,
    {
        let ghost code0 = code.instructions@;
        let ghost l0 = code0.len() as int;
        let ghost state0 = *state;
        let depth = state.program_stack.len();
        let mut i: usize = 0;
        assert(code0.take(l0) =~= code0);
        assert(code0.skip(l0) =~= Seq::<Instruction>::empty());
        assert(views(code0.skip(l0)) =~= Seq::<InstrView>::empty());
        assert(state.program_stack@.take(depth as int) =~= state.program_stack@);
        while i < self.children.len()
            invariant
                i <= self.children@.len(),
                depth == state0.program_stack@.len(),
                l0 == code0.len(),
                code.instructions@.len() >= l0,
                code.instructions@.take(l0) == code0,
                views(code.instructions@.skip(l0)) == flat_children(*self, i as nat),
                fresh(code.instructions@.skip(l0)),
                jumps_in_range(code.instructions@.skip(l0)),
                same_channels(*state, state0),
                stack_extends(*state, state0),
            decreases self.children@.len() - i,
        {
            let ghost code1 = code.instructions@;
            let ghost state1 = *state;
            proof { assert(decreases_to!(self => self.children)); }
            self.children[i].value.flatten(code, state);
            proof {
                let code2 = code.instructions@;
                let x = code2.skip(code1.len() as int);
                assert(code2 =~= code1 + x);
                assert(code2.take(l0) =~= code0);
                assert(code2.skip(l0) =~= code1.skip(l0) + x);
                lemma_views_add(code1.skip(l0), x);
                lemma_concat_jumps(code1.skip(l0), x);
                assert(flat_children(*self, (i + 1) as nat) == flat_children(*self, i as nat) + flat_stmt(self.children@[i as int].value));
            }
            assert(state.program_stack@.take(depth as int) =~= state1.program_stack@.take(depth as int));
            i = i + 1;
        }
        state.program_stack.truncate(depth);
    }
}

impl IfControl {
    /// Appends the conditional's code, `flat_if(self)`: a conditional jump
    /// that falls through when true, the then-branch, and, with an
    /// else-branch, a jump to the end followed by the else-branch. When false
    /// it lands just past the then-branch, that is at the else-branch when
    /// there is one.
    pub fn flatten(&self, code: &mut ProcessCode, state: &mut CompilerState)
        ensures
            final(code).instructions@.len() >= old(code).instructions@.len(),
            final(code).instructions@.take(old(code).instructions@.len() as int) == old(code).instructions@,
            views(final(code).instructions@.skip(old(code).instructions@.len() as int)) == flat_if(*self),
            fresh(final(code).instructions@.skip(old(code).instructions@.len() as int)),
            jumps_in_range(final(code).instructions@.skip(old(code).instructions@.len() as int)),
            same_channels(*final(state), *old(state)),
            final(state).program_stack@ == old(state).program_stack@,
        decreases self,
    {
        let ghost code0 = code.instructions@;
        let i = code.instructions.len();
        code.instructions.push(plain(InstructionType::Empty, self.condition.pos, false));
        let mut then_code = ProcessCode { instructions: Vec::new() };
        self.then_block.value.flatten(&mut then_code, state);
        let ghost t = then_code.instructions@;
        proof {
            assert(t.take(0) =~= Seq::<Instruction>::empty());
            assert(t.skip(0) =~= t);
        }
        append_block(code, then_code.instructions);
        let cond = self.condition.value.duplicate();
        match &self.else_block {
            None => {
                let jf = code.instructions.len() - i;
                let xi = plain(InstructionType::If(IfJump { condition: cond, jump_true: 1, jump_false: jf }), self.condition.pos, false);
                let ghost x = xi;
                code.instructions.set(i, xi);
                proof {
                    let all = code.instructions@;
                    assert(all =~= code0 + (seq![x] + t));
                    assert(all.take(code0.len() as int) =~= code0);
                    assert(all.skip(code0.len() as int) =~= seq![x] + t);
                    lemma_views_add(seq![x], t);
                    assert(views(seq![x]) =~= seq![(x.control, x.pos, x.continues_step)]);
                    assert(fresh(seq![x]));
                    lemma_if_jumps(x, t);
                }
            },
            Some(else_block) => {
                let j = code.instructions.len();
                code.instructions.push(plain(InstructionType::Empty, else_block.pos, false));
                let mut else_code = ProcessCode { instructions: Vec::new() };
                else_block.value.flatten(&mut else_code, state);
                let ghost e = else_code.instructions@;
                proof {
                    assert(e.take(0) =~= Seq::<Instruction>::empty());
                    assert(e.skip(0) =~= e);
                }
                append_block(code, else_code.instructions);
                let n = code.instructions.len();
                let yi = plain(InstructionType::Jump(n - j), else_block.pos, false);
                let ghost y = yi;
                code.instructions.set(j, yi);
                let jf = j + 1 - i;
                let xi = plain(InstructionType::If(IfJump { condition: cond, jump_true: 1, jump_false: jf }), self.condition.pos, false);
                let ghost x = xi;
                code.instructions.set(i, xi);
                proof {
                    let all = code.instructions@;
                    let blk = seq![x] + t + seq![y] + e;
                    assert(all =~= code0 + blk);
                    assert(all.take(code0.len() as int) =~= code0);
                    assert(all.skip(code0.len() as int) =~= blk);
                    lemma_views_add(seq![x], t);
                    lemma_views_add(seq![x] + t, seq![y]);
                    lemma_views_add(seq![x] + t + seq![y], e);
                    assert(views(seq![x]) =~= seq![(x.control, x.pos, x.continues_step)]);
                    assert(views(seq![y]) =~= seq![(y.control, y.pos, y.continues_step)]);
                    assert(fresh(seq![x]));
                    assert(fresh(seq![y]));
                    lemma_if_else_jumps(x, t, y, e);
                }
            },
        }
    }
}

impl WhileControl {
    /// Appends the loop's code, `flat_while(self)`: a conditional jump, the
    /// body, and a jump back to the conditional. The conditional falls
    /// through when true; when false it lands just past the jump back.
    pub fn flatten(&self, code: &mut ProcessCode, state: &mut CompilerState)
        ensures
            final(code).instructions@.len() >= old(code).instructions@.len(),
            final(code).instructions@.take(old(code).instructions@.len() as int) == old(code).instructions@,
            views(final(code).instructions@.skip(old(code).instructions@.len() as int)) == flat_while(*self),
            fresh(final(code).instructions@.skip(old(code).instructions@.len() as int)),
            jumps_in_range(final(code).instructions@.skip(old(code).instructions@.len() as int)),
            same_channels(*final(state), *old(state)),
            stack_extends(*final(state), *old(state)),
        decreases self,
    {
        let ghost code0 = code.instructions@;
        let i = code.instructions.len();
        code.instructions.push(plain(InstructionType::Empty, self.condition.pos, false));
        let mut body = ProcessCode { instructions: Vec::new() };
        self.then_block.value.flatten(&mut body, state);
        let ghost b = body.instructions@;
        proof {
            assert(b.take(0) =~= Seq::<Instruction>::empty());
            assert(b.skip(0) =~= b);
        }
        append_block(code, body.instructions);
        let back = code.instructions.len();
        let yi = plain(InstructionType::JumpBack(back - i), self.condition.pos, false);
        let ghost y = yi;
        code.instructions.push(yi);
        let n = code.instructions.len();
        let cond = self.condition.value.duplicate();
        let xi = plain(InstructionType::If(IfJump { condition: cond, jump_true: 1, jump_false: n - i }), self.condition.pos, false);
        let ghost x = xi;
        code.instructions.set(i, xi);
        proof {
            let all = code.instructions@;
            let blk = seq![x] + b + seq![y];
            assert(all =~= code0 + blk);
            assert(all.take(code0.len() as int) =~= code0);
            assert(all.skip(code0.len() as int) =~= blk);
            lemma_views_add(seq![x], b);
            lemma_views_add(seq![x] + b, seq![y]);
            assert(views(seq![x]) =~= seq![(x.control, x.pos, x.continues_step)]);
            assert(views(seq![y]) =~= seq![(y.control, y.pos, y.continues_step)]);
            assert(fresh(seq![x]));
            assert(fresh(seq![y]));
            lemma_while_jumps(x, b, y);
        }
    }
}

} // verus!
