use vstd::prelude::*;
use crate::datatype::Literal;

verus! {

/// A runtime variable binding.
#[derive(Clone, Debug)]
pub struct Symbol {
    pub name: String,
    pub value: Literal,
}

/// Index of the most recent binding of `name` in `bs`.
pub open spec fn binding_index(bs: Seq<(Seq<char>, Literal)>, name: Seq<char>) -> Option<int>
    decreases bs.len(),
{
    if bs.len() == 0 {
        None
    } else if bs.last().0 == name {
        Some(bs.len() - 1)
    } else {
        binding_index(bs.drop_last(), name)
    }
}

/// The value `name` is bound to in `bs`: that of its most recent binding.
pub open spec fn binding_value(bs: Seq<(Seq<char>, Literal)>, name: Seq<char>) -> Option<Literal> {
    match binding_index(bs, name) {
        Some(i) => Some(bs[i].1),
        None => None,
    }
}

pub proof fn lemma_binding_index_bound(bs: Seq<(Seq<char>, Literal)>, name: Seq<char>)
    ensures
        binding_index(bs, name) matches Some(i) ==> 0 <= i < bs.len() && bs[i].0 == name,
    decreases bs.len(),
{
    if bs.len() > 0 {
        lemma_binding_index_bound(bs.drop_last(), name);
    }
}

/// The variables of a running process: a stack of bindings, and for each
/// open scope the height the stack had when the scope was entered.
#[derive(Clone, Debug)]
pub struct Environment {
    pub symbols: Vec<Symbol>,
    pub scopes: Vec<usize>,
}

impl Environment {
    pub open spec fn bindings(&self) -> Seq<(Seq<char>, Literal)> {
        self.symbols@.map_values(|s: Symbol| (s.name@, s.value))
    }

    /// Scope marks never decrease and never exceed the stack height.
    pub open spec fn wf(&self) -> bool {
        &&& forall|i: int, j: int| 0 <= i <= j < self.scopes@.len() ==> self.scopes@[i] <= self.scopes@[j]
        &&& forall|i: int| 0 <= i < self.scopes@.len() ==> self.scopes@[i] <= self.symbols@.len()
    }

    pub fn new() -> (r: Self)
        ensures
            r.wf(),
            r.bindings().len() == 0,
            r.scopes@.len() == 0,
    {
        Environment { symbols: Vec::new(), scopes: Vec::new() }
    }

    /// Opens a scope.
    pub fn push_scope(&mut self)
        requires
            old(self).wf(),
        ensures
            final(self).wf(),
            final(self).bindings() == old(self).bindings(),
            final(self).scopes@ == old(self).scopes@.push(old(self).symbols@.len() as usize),
    {
        let h = self.symbols.len();
        self.scopes.push(h);
    }

    /// Closes the innermost scope, dropping the bindings made in it; with no
    /// scope open it does nothing.
    pub fn pop_scope(&mut self)
        requires
            old(self).wf(),
        ensures
            final(self).wf(),
            old(self).scopes@.len() == 0 ==> final(self).bindings() == old(self).bindings()
                && final(self).scopes@ == old(self).scopes@,
            old(self).scopes@.len() > 0 ==> final(self).scopes@ == old(self).scopes@.drop_last()
                && final(self).bindings() == old(self).bindings().take(old(self).scopes@.last() as int),
    {
        if let Some(h) = self.scopes.pop() {
            self.symbols.truncate(h);
            assert(self.bindings() =~= old(self).bindings().take(h as int));
        } else {
            assert(self.bindings() =~= old(self).bindings());
        }
    }

    /// Binds `name` to `value` in the innermost scope, shadowing any
    /// earlier binding of the name.
    pub fn insert_symbol(&mut self, name: String, value: Literal)
        requires
            old(self).wf(),
        ensures
            final(self).wf(),
            final(self).scopes@ == old(self).scopes@,
            final(self).bindings() == old(self).bindings().push((name@, value)),
    {
        self.symbols.push(Symbol { name, value });
        assert(self.bindings() =~= old(self).bindings().push((name@, value)));
    }

    /// The value of the most recent binding of `name`.
    pub fn get_symbol(&self, name: &String) -> (r: Option<Literal>)
        ensures
            r == binding_value(self.bindings(), name@),
    {
        proof { lemma_binding_index_bound(self.bindings(), name@); }
        match self.find(name) {
            Some(i) => {
                assert(binding_index(self.bindings(), name@) == Some(i as int));
                assert(self.bindings()[i as int] == (self.symbols@[i as int].name@, self.symbols@[i as int].value));
                Some(self.symbols[i].value.duplicate())
            },
            None => None,
        }
    }

    fn find(&self, name: &String) -> (r: Option<usize>)
        ensures
            r matches Some(j) ==> binding_index(self.bindings(), name@) == Some(j as int),
            r is None ==> binding_index(self.bindings(), name@) is None,
    {
        let ghost bs = self.bindings();
        let mut i: usize = self.symbols.len();
        assert(bs.take(i as int) =~= bs);
        while i > 0
            invariant
                i <= self.symbols@.len(),
                bs == self.bindings(),
                binding_index(bs, name@) == binding_index(bs.take(i as int), name@),
            decreases i,
        {
            assert(bs.take(i as int).drop_last() =~= bs.take(i - 1));
            assert(bs.take(i as int).last() == bs[i - 1]);
            if self.symbols[i - 1].name.eq(name) {
                assert(bs[i - 1].0 == name@);
                return Some(i - 1);
            }
            i = i - 1;
        }
        assert(bs.take(0) =~= Seq::<(Seq<char>, Literal)>::empty());
        None
    }

    /// Sets the most recent binding of `name` to `value`; fails, changing
    /// nothing, when the name is not bound.
    pub fn update_symbol(&mut self, name: &String, value: Literal) -> (r: Result<(), ()>)
        requires
            old(self).wf(),
        ensures
            final(self).wf(),
            final(self).scopes@ == old(self).scopes@,
            match binding_index(old(self).bindings(), name@) {
                Some(i) => r is Ok && final(self).bindings() == old(self).bindings().update(i, (name@, value)),
                None => r is Err && *final(self) == *old(self),
            },
    {
        match self.find(name) {
            Some(i) => {
                proof { lemma_binding_index_bound(self.bindings(), name@); }
                let ghost before = self.bindings();
                let n = self.symbols[i].name.clone();
                self.symbols.set(i, Symbol { name: n, value });
                assert(self.bindings() =~= before.update(i as int, (name@, value)));
                Ok(())
            },
            None => Err(()),
        }
    }
}

/// Shadowing: a binding made in an inner scope hides an outer binding of
/// the same name, and closing the inner scope brings the outer one back.
pub proof fn law_scope_shadowing(
    bindings: Seq<(Seq<char>, Literal)>,
    name: Seq<char>,
    outer: Literal,
    inner: Literal,
)
    ensures
        ({
            let b1 = bindings.push((name, outer));
            let b2 = b1.push((name, inner));
            &&& binding_value(b2, name) == Some(inner)
            &&& binding_value(b2.take(b1.len() as int), name) == Some(outer)
        }),
{
    let b1 = bindings.push((name, outer));
    let b2 = b1.push((name, inner));
    assert(b2.take(b1.len() as int) =~= b1);
}

} // verus!
