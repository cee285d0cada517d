//! Environments: a stack of scopes, innermost last. Each scope maps names to
//! values or functions; a name holds one entity per scope, so storing a value
//! under a function's name replaces the function, and the other way round.
use vstd::prelude::*;

use crate::syntax::{duplicate_idents, view_idents, Expr, Identifier, SpecExpr};
use crate::value::{EvalError, SpecEvalError, SpecVal, Val};

verus! {

/// A function as stored: its parameters and body, and nothing of the scope it
/// was defined in.
#[derive(Debug, PartialEq)]
pub struct NamelessFunction {
    pub params: Vec<Identifier>,
    pub body: Expr,
}

#[derive(Debug, PartialEq)]
pub enum Storeable {
    /// A value, and whether it is immutable.
    Binding(Val, bool),
    Func(NamelessFunction),
}

pub enum SpecEntry {
    Value(SpecVal, bool),
    Func(Seq<Seq<char>>, SpecExpr),
}

impl View for Storeable {
    type V = SpecEntry;

    open spec fn view(&self) -> SpecEntry {
        match self {
            Storeable::Binding(v, f) => SpecEntry::Value(v@, *f),
            Storeable::Func(n) => SpecEntry::Func(view_idents(n.params@), n.body@),
        }
    }
}

impl Storeable {
    pub fn duplicate(&self) -> (r: Storeable)
        ensures
            r@ == self@,
    {
        match self {
            Storeable::Binding(v, f) => Storeable::Binding(v.duplicate(), *f),
            Storeable::Func(n) => Storeable::Func(
                NamelessFunction { params: duplicate_idents(&n.params), body: n.body.duplicate() },
            ),
        }
    }
}

pub type SpecScope = Seq<(Seq<char>, SpecEntry)>;

pub type SpecEnv = Seq<SpecScope>;

pub open spec fn view_scope(sc: Seq<(Identifier, Storeable)>) -> SpecScope {
    Seq::new(sc.len(), |j: int| (sc[j].0@, sc[j].1@))
}

/// The first index at or after `i` where `sc` holds `id`.
pub open spec fn find_from(sc: SpecScope, id: Seq<char>, i: int) -> Option<int>
    decreases sc.len() - i,
{
    if i < 0 || i >= sc.len() {
        None
    } else if sc[i].0 == id {
        Some(i)
    } else {
        find_from(sc, id, i + 1)
    }
}

pub open spec fn find(sc: SpecScope, id: Seq<char>) -> Option<int> {
    find_from(sc, id, 0)
}

/// What `find_from` gives: the first index at or after `i` holding `id`.
pub proof fn lemma_find_spec(sc: SpecScope, id: Seq<char>, i: int)
    requires
        0 <= i,
    ensures
        match find_from(sc, id, i) {
            Some(j) => i <= j < sc.len() && sc[j].0 == id && forall|k: int|
                i <= k < j ==> (#[trigger] sc[k]).0 != id,
            None => forall|k: int| i <= k < sc.len() ==> (#[trigger] sc[k]).0 != id,
        },
    decreases sc.len() - i,
{
    if i < sc.len() && sc[i].0 != id {
        lemma_find_spec(sc, id, i + 1);
    }
}

/// The first index holding `id` is what `find_from` gives.
pub proof fn lemma_find_at(sc: SpecScope, id: Seq<char>, i: int, j: int)
    requires
        0 <= i <= j < sc.len(),
        sc[j].0 == id,
        forall|k: int| i <= k < j ==> (#[trigger] sc[k]).0 != id,
    ensures
        find_from(sc, id, i) == Some(j),
    decreases j - i,
{
    if i < j {
        lemma_find_at(sc, id, i + 1, j);
    }
}

/// No name appears twice in the scope.
pub open spec fn unique_names(sc: SpecScope) -> bool {
    forall|i: int, j: int| 0 <= i < j < sc.len() ==> (#[trigger] sc[i]).0 != (#[trigger] sc[j]).0
}

/// Storing keeps the names of a scope unique.
pub proof fn lemma_store_unique(sc: SpecScope, id: Seq<char>, e: SpecEntry)
    requires
        unique_names(sc),
    ensures
        unique_names(scope_store(sc, id, e)),
{
    lemma_find_spec(sc, id, 0);
    let r = scope_store(sc, id, e);
    assert forall|i: int, j: int| 0 <= i < j < r.len() implies (#[trigger] r[i]).0 != (#[trigger] r[j]).0 by {
        if j < sc.len() {
            assert(r[i].0 == sc[i].0 && r[j].0 == sc[j].0);
        } else {
            assert(r[j].0 == id && r[i] == sc[i]);
        }
    }
}

/// `sc` with `id` holding `e`, in place of what it held before.
pub open spec fn scope_store(sc: SpecScope, id: Seq<char>, e: SpecEntry) -> SpecScope {
    match find(sc, id) {
        Some(i) => sc.update(i, (id, e)),
        None => sc.push((id, e)),
    }
}

/// Stores in the innermost scope.
pub open spec fn env_store(env: SpecEnv, id: Seq<char>, e: SpecEntry) -> SpecEnv {
    env.update(env.len() - 1, scope_store(env.last(), id, e))
}

/// What `id` names, looking from the innermost scope outwards.
pub open spec fn lookup(env: SpecEnv, id: Seq<char>) -> Option<SpecEntry>
    decreases env.len(),
{
    if env.len() == 0 {
        None
    } else {
        match find(env.last(), id) {
            Some(i) => Some(env.last()[i].1),
            None => lookup(env.drop_last(), id),
        }
    }
}

pub open spec fn binding_of(env: SpecEnv, id: Seq<char>) -> Result<(SpecVal, bool), SpecEvalError> {
    match lookup(env, id) {
        None => Err(SpecEvalError::IdentifierNotFound(id)),
        Some(SpecEntry::Value(v, f)) => Ok((v, f)),
        Some(SpecEntry::Func(_, _)) => Err(SpecEvalError::InvalidStoredType),
    }
}

pub open spec fn function_of(env: SpecEnv, id: Seq<char>) -> Result<(Seq<Seq<char>>, SpecExpr), SpecEvalError> {
    match lookup(env, id) {
        None => Err(SpecEvalError::IdentifierNotFound(id)),
        Some(SpecEntry::Func(ps, b)) => Ok((ps, b)),
        Some(SpecEntry::Value(_, _)) => Err(SpecEvalError::InvalidStoredType),
    }
}

/// A new value for a mutable binding of the innermost scope; outer scopes are
/// not searched.
pub open spec fn reassigned(env: SpecEnv, id: Seq<char>, v: SpecVal) -> Result<SpecEnv, SpecEvalError> {
    match find(env.last(), id) {
        None => Err(SpecEvalError::IdentifierNotFound(id)),
        Some(i) => match env.last()[i].1 {
            SpecEntry::Func(_, _) => Err(SpecEvalError::InvalidStoredType),
            SpecEntry::Value(_, f) => if f {
                Err(SpecEvalError::ImmutableReassignment(id))
            } else {
                Ok(env_store(env, id, SpecEntry::Value(v, f)))
            },
        },
    }
}

pub struct Env {
    scopes: Vec<Vec<(Identifier, Storeable)>>,
}

impl View for Env {
    type V = SpecEnv;

    closed spec fn view(&self) -> SpecEnv {
        Seq::new(self.scopes@.len(), |i: int| view_scope(self.scopes@[i]@))
    }
}

impl Env {
    /// There is an innermost scope, and no scope holds a name twice.
    pub closed spec fn wf(&self) -> bool {
        &&& self.scopes.len() >= 1
        &&& forall|k: int| 0 <= k < self@.len() ==> unique_names(#[trigger] self@[k])
    }

    pub proof fn lemma_wf(&self)
        ensures
            self.wf() <==> (self@.len() >= 1 && forall|k: int|
                0 <= k < self@.len() ==> unique_names(#[trigger] self@[k])),
    {
    }

    /// An environment of one empty scope.
    pub fn new() -> (r: Env)
        ensures
            r.wf(),
            r@ == seq![SpecScope::empty()],
    {
        let mut scopes: Vec<Vec<(Identifier, Storeable)>> = Vec::new();
        scopes.push(Vec::new());
        let r = Env { scopes };
        assert(view_scope(r.scopes@[0]@) =~= SpecScope::empty());
        assert(r@ =~= seq![SpecScope::empty()]);
        r
    }

    /// An environment whose outer scopes are copies of those of `parent` and
    /// whose innermost scope is empty. What is stored through it stays in its
    /// own innermost scope, so `parent` is never changed through it.
    pub fn from_parent(parent: &Env) -> (r: Env)
        requires
            parent.wf(),
        ensures
            r.wf(),
            r@ == parent@.push(SpecScope::empty()),
    {
        let mut scopes: Vec<Vec<(Identifier, Storeable)>> = Vec::new();
        let mut i: usize = 0;
        while i < parent.scopes.len()
            invariant
                0 <= i <= parent.scopes.len(),
                scopes.len() == i,
                forall|k: int| 0 <= k < i ==> view_scope(#[trigger] scopes@[k]@) == view_scope(parent.scopes@[k]@),
            decreases parent.scopes.len() - i,
        {
            let src = &parent.scopes[i];
            let mut sc: Vec<(Identifier, Storeable)> = Vec::new();
            let mut j: usize = 0;
            while j < src.len()
                invariant
                    0 <= j <= src.len(),
                    sc.len() == j,
                    forall|m: int| 0 <= m < j ==> (#[trigger] sc@[m]).0@ == src@[m].0@ && sc@[m].1@ == src@[m].1@,
                decreases src.len() - j,
            {
                sc.push((src[j].0.duplicate(), src[j].1.duplicate()));
                j = j + 1;
            }
            assert(view_scope(sc@) =~= view_scope(src@));
            scopes.push(sc);
            i = i + 1;
        }
        scopes.push(Vec::new());
        let r = Env { scopes };
        assert(view_scope(r.scopes@[r.scopes@.len() - 1]@) =~= SpecScope::empty());
        assert(r@ =~= parent@.push(SpecScope::empty()));
        r
    }

    /// Opens a new innermost scope.
    pub fn push_scope(&mut self)
        requires
            old(self).wf(),
        ensures
            final(self).wf(),
            final(self)@ == old(self)@.push(SpecScope::empty()),
    {
        self.scopes.push(Vec::new());
        assert(view_scope(self.scopes@[self.scopes@.len() - 1]@) =~= SpecScope::empty());
        assert(self@ =~= old(self)@.push(SpecScope::empty()));
    }

    /// Closes the innermost scope, dropping what it held.
    pub fn pop_scope(&mut self)
        requires
            old(self).wf(),
            old(self)@.len() >= 2,
        ensures
            final(self).wf(),
            final(self)@ == old(self)@.drop_last(),
    {
        let _ = self.scopes.pop();
        assert(self@ =~= old(self)@.drop_last());
    }

    /// Where the scope at `k` holds `id`, if it does.
    fn find_in(&self, k: usize, id: &Identifier) -> (r: Option<usize>)
        requires
            k < self@.len(),
        ensures
            r matches Some(i) ==> i < self@[k as int].len(),
            match r {
                Some(i) => find(self@[k as int], id@) == Some(i as int),
                None => find(self@[k as int], id@) is None,
            },
    {
        let ghost sc = self@[k as int];
        let entries = &self.scopes[k];
        let mut i: usize = 0;
        while i < entries.len()
            invariant
                0 <= i <= entries.len(),
                k < self@.len(),
                sc == self@[k as int],
                sc == view_scope(entries@),
                find(sc, id@) == find_from(sc, id@, i as int),
            decreases entries.len() - i,
        {
            if entries[i].0.0.eq(&id.0) {
                return Some(i);
            }
            i = i + 1;
        }
        None
    }

    /// Stores `e` under `id` in the innermost scope.
    fn store(&mut self, id: Identifier, e: Storeable)
        requires
            old(self).wf(),
        ensures
            final(self).wf(),
            final(self)@ == env_store(old(self)@, id@, e@),
    {
        let last = self.scopes.len() - 1;
        let found = self.find_in(last, &id);
        let mut sc = self.scopes.pop().unwrap();
        let ghost before = view_scope(sc@);
        match found {
            Some(i) => {
                sc.set(i, (id, e));
                assert(view_scope(sc@) =~= before.update(i as int, (id@, e@)));
            },
            None => {
                sc.push((id, e));
                assert(view_scope(sc@) =~= before.push((id@, e@)));
            },
        }
        self.scopes.push(sc);
        assert(self@ =~= env_store(old(self)@, id@, e@));
        proof {
            lemma_store_unique(old(self)@.last(), id@, e@);
            assert forall|k: int| 0 <= k < self@.len() implies unique_names(#[trigger] self@[k]) by {
                if k < self@.len() - 1 {
                    assert(self@[k] == old(self)@[k]);
                }
            }
        }
    }

    pub fn store_binding(&mut self, id: Identifier, val: Val, immutable: bool)
        requires
            old(self).wf(),
        ensures
            final(self).wf(),
            final(self)@ == env_store(old(self)@, id@, SpecEntry::Value(val@, immutable)),
    {
        self.store(id, Storeable::Binding(val, immutable));
    }

    pub fn store_func(&mut self, id: Identifier, params: Vec<Identifier>, body: Expr)
        requires
            old(self).wf(),
        ensures
            final(self).wf(),
            final(self)@ == env_store(
                old(self)@,
                id@,
                SpecEntry::Func(view_idents(params@), body@),
            ),
    {
        self.store(id, Storeable::Func(NamelessFunction { params, body }));
    }

    /// The innermost scope at or below `k` that holds `id`, and where.
    fn locate(&self, id: &Identifier) -> (r: Option<(usize, usize)>)
        ensures
            match r {
                Some((k, i)) => k < self@.len() && i < self@[k as int].len() && lookup(self@, id@)
                    == Some(self@[k as int][i as int].1),
                None => lookup(self@, id@) is None,
            },
    {
        let ghost env = self@;
        assert(env.subrange(0, env.len() as int) =~= env);
        let mut k = self.scopes.len();
        while k > 0
            invariant
                0 <= k <= env.len(),
                env == self@,
                lookup(env, id@) == lookup(env.subrange(0, k as int), id@),
            decreases k,
        {
            let ghost part = env.subrange(0, k as int);
            assert(part.last() == env[k - 1]);
            assert(part.drop_last() =~= env.subrange(0, k - 1));
            match self.find_in(k - 1, id) {
                Some(i) => {
                    return Some((k - 1, i));
                },
                None => {},
            }
            k = k - 1;
        }
        None
    }

    /// The value that `id` names and whether it is immutable.
    pub fn get_stored_binding(&self, id: &Identifier) -> (r: Result<(Val, bool), EvalError>)
        ensures
            match (r, binding_of(self@, id@)) {
                (Ok((v, f)), Ok((w, g))) => v@ == w && f == g,
                (Err(e), Err(x)) => e@ == x,
                _ => false,
            },
    {
        match self.locate(id) {
            None => Err(EvalError::IdentifierNotFound(id.duplicate())),
            Some((k, i)) => match &self.scopes[k][i].1 {
                Storeable::Binding(v, f) => Ok((v.duplicate(), *f)),
                Storeable::Func(_) => Err(EvalError::InvalidStoredType),
            },
        }
    }

    /// The function that `id` names.
    pub fn get_stored_func(&self, id: &Identifier) -> (r: Result<&NamelessFunction, EvalError>)
        ensures
            match (r, function_of(self@, id@)) {
                (Ok(n), Ok((ps, b))) => view_idents(n.params@) == ps && n.body@ == b,
                (Err(e), Err(x)) => e@ == x,
                _ => false,
            },
    {
        match self.locate(id) {
            None => Err(EvalError::IdentifierNotFound(id.duplicate())),
            Some((k, i)) => match &self.scopes[k][i].1 {
                Storeable::Func(n) => Ok(n),
                Storeable::Binding(_, _) => Err(EvalError::InvalidStoredType),
            },
        }
    }

    /// Gives a mutable binding of the innermost scope a new value.
    pub fn reassign_binding(&mut self, id: Identifier, val: Val) -> (r: Result<(), EvalError>)
        requires
            old(self).wf(),
        ensures
            final(self).wf(),
            match (r, reassigned(old(self)@, id@, val@)) {
                (Ok(()), Ok(env)) => final(self)@ == env,
                (Err(e), Err(x)) => e@ == x && final(self)@ == old(self)@,
                _ => false,
            },
    {
        let last = self.scopes.len() - 1;
        let i = match self.find_in(last, &id) {
            None => {
                return Err(EvalError::IdentifierNotFound(id));
            },
            Some(i) => i,
        };
        let immutable = match &self.scopes[last][i].1 {
            Storeable::Func(_) => {
                return Err(EvalError::InvalidStoredType);
            },
            Storeable::Binding(_, f) => *f,
        };
        if immutable {
            return Err(EvalError::ImmutableReassignment(id));
        }
        self.store(id, Storeable::Binding(val, immutable));
        Ok(())
    }
}

} // verus!
