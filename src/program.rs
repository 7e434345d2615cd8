use vstd::prelude::*;
use crate::ast::{Expression, Node, Scope};
use crate::env::{Environment, binding_index};
use crate::error::{AlthreadError, AlthreadResult, ErrorType, Pos};
use crate::datatype::Literal;
use crate::eval::{
    MemView, ProcessEnv, err_view, outcome, eval_expression, expr_value, mem_view, scope_resumable, scope_step,
};

verus! {

/// A plain assignment of a value to a bound variable.
#[derive(Clone, Debug)]
pub struct Assign {
    pub identifier: String,
    pub value: Node<Expression>,
    pub line: usize,
    pub column: usize,
}

impl Assign {
    /// Evaluates the value and stores it in the most recent binding of the
    /// identifier; an unbound identifier is a `VariableError` at the
    /// assignment's position.
    pub fn eval(&self, env: &mut Environment) -> (r: AlthreadResult<()>)
        requires
            old(env).wf(),
        ensures
            final(env).wf(),
            final(env).scopes@ == old(env).scopes@,
            match expr_value(self.value.value, old(env).bindings()) {
                None => (r matches Err(e) && e.error_type == ErrorType::VariableError
                    && e.pos == Some(self.value.pos)) && final(env).bindings() == old(env).bindings(),
                Some(v) => match binding_index(old(env).bindings(), self.identifier@) {
                    None => (r matches Err(e) && e.error_type == ErrorType::VariableError
                        && e.pos == Some(Pos { line: self.line, column: self.column })
                        && e.subject@ == self.identifier@) && final(env).bindings() == old(env).bindings(),
                    Some(i) => r is Ok && final(env).bindings() == old(env).bindings().update(i, (self.identifier@, v)),
                },
            },
    {
        let v = match eval_expression(&self.value, env) {
            Ok(v) => v,
            Err(e) => return Err(e),
        };
        match env.update_symbol(&self.identifier, v) {
            Ok(()) => Ok(()),
            Err(()) => Err(AlthreadError::new(
                ErrorType::VariableError,
                Some(Pos { line: self.line, column: self.column }),
                self.identifier.clone(),
                None,
            )),
        }
    }
}

/// A program: a block of shared declarations and a main block.
#[derive(Debug)]
pub struct Program {
    pub main_block: Option<Node<Scope>>,
    pub shared_block: Option<Node<Scope>>,
    pub line: usize,
    pub column: usize,
}

/// Runs a block from state `e` and memory `m` for at most `fuel` steps:
/// the memory after, and whether it completed, or the error it met.
pub open spec fn run_scope(sc: Scope, e: ProcessEnv, m: MemView, fuel: nat) -> (MemView, Result<bool, (ErrorType, Option<Pos>, Seq<char>)>)
    decreases fuel,
{
    if fuel == 0 {
        (m, Ok(false))
    } else {
        let (e1, m1, r) = scope_step(sc, e, m);
        match r {
            Err(x) => (m1, Err(x)),
            Ok(Some(_)) => (m1, Ok(true)),
            Ok(None) => run_scope(sc, e1, m1, (fuel - 1) as nat),
        }
    }
}

pub open spec fn bool_outcome(r: AlthreadResult<bool>) -> Result<bool, (ErrorType, Option<Pos>, Seq<char>)> {
    match r {
        Ok(b) => Ok(b),
        Err(e) => Err(err_view(e)),
    }
}

/// What running a program for at most `fuel` steps per block yields: the
/// shared block runs first, and the main block only once it completed.
pub open spec fn program_outcome(p: Program, fuel: nat) -> Result<bool, (ErrorType, Option<Pos>, Seq<char>)> {
    let fresh = ProcessEnv { position: 0, child: None };
    let m0: MemView = (Seq::empty(), Seq::empty());
    let (m1, r1) = match p.shared_block {
        Some(b) => run_scope(b.value, fresh, m0, fuel),
        None => (m0, Ok(true)),
    };
    if r1 != Ok::<bool, (ErrorType, Option<Pos>, Seq<char>)>(true) {
        r1
    } else {
        match p.main_block {
            Some(b) => run_scope(b.value, fresh, m1, fuel).1,
            None => Ok(true),
        }
    }
}

/// Runs a block step by step, at most `max_steps` steps: `run_scope`.
pub fn run_block(block: &Scope, mem: &mut Environment, max_steps: usize) -> (r: AlthreadResult<bool>)
    requires
        old(mem).wf(),
    ensures
        final(mem).wf(),
        (mem_view(*final(mem)), bool_outcome(r))
            == run_scope(*block, ProcessEnv { position: 0, child: None }, mem_view(*old(mem)), max_steps as nat),
{
    let ghost goal = run_scope(*block, ProcessEnv { position: 0, child: None }, mem_view(*mem), max_steps as nat);
    let mut env = ProcessEnv::new();
    let mut steps: usize = 0;
    while steps < max_steps
        invariant
            mem.wf(),
            scope_resumable(*block, env),
            steps <= max_steps,
            goal == run_scope(*block, env, mem_view(*mem), (max_steps - steps) as nat),
            goal == run_scope(*block, ProcessEnv { position: 0, child: None }, mem_view(*old(mem)), max_steps as nat),
        decreases max_steps - steps,
    {
        let ghost e0 = env;
        let ghost m0 = mem_view(*mem);
        let ghost fuel = (max_steps - steps) as nat;
        let r = block.eval(&mut env, mem);
        proof {
            let (e1, m1, o) = scope_step(*block, e0, m0);
            assert(run_scope(*block, e0, m0, fuel) == match o {
                Err(x) => (m1, Err(x)),
                Ok(Some(_)) => (m1, Ok(true)),
                Ok(None) => run_scope(*block, e1, m1, (fuel - 1) as nat),
            });
        }
        match r {
            Err(e) => {
                assert(outcome(r) == Err::<Option<Literal>, (ErrorType, Option<Pos>, Seq<char>)>(err_view(e)));
                assert(goal == (mem_view(*mem), Err::<bool, (ErrorType, Option<Pos>, Seq<char>)>(err_view(e))));
                return Err(e);
            },
            Ok(Some(_)) => {
                assert(goal == (mem_view(*mem), Ok::<bool, (ErrorType, Option<Pos>, Seq<char>)>(true)));
                return Ok(true);
            },
            Ok(None) => {},
        }
        steps = steps + 1;
    }
    Ok(false)
}

impl Program {
    /// Runs the shared block, then, once it completed, the main block, in
    /// one environment, each for at most `max_steps` steps: `true` when both
    /// completed; the first error met is returned. A missing block counts as
    /// completed.
    pub fn eval(&self, max_steps: usize) -> (r: AlthreadResult<bool>)
        ensures
            bool_outcome(r) == program_outcome(*self, max_steps as nat),
    {
        let mut mem = Environment::new();
        assert(mem_view(mem) =~= (Seq::<(Seq<char>, Literal)>::empty(), Seq::<usize>::empty()));
        if let Some(b) = &self.shared_block {
            match run_block(&b.value, &mut mem, max_steps) {
                Ok(true) => {},
                other => return other,
            }
        }
        if let Some(b) = &self.main_block {
            return run_block(&b.value, &mut mem, max_steps);
        }
        Ok(true)
    }
}

} // verus!
