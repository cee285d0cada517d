//! The evaluator, proved to follow `semantics`.
use vstd::prelude::*;

use crate::env::{
    env_store, find, find_from, function_of, lookup, scope_store, Env, SpecEntry, SpecEnv,
    SpecScope,
};
use crate::semantics::{
    bind_params, bodies_below, entry_bound, eval_args, eval_expr, eval_inner, eval_literal,
    eval_stmt, eval_stmts, lemma_lookup_below, lemma_size_exprs, lemma_size_stmts,
    lemma_store_below, lemma_top_cap, math_inner, not_real, real_result, run_expr, run_inner,
    run_reassign, run_stmt, size_expr, size_exprs, size_inner, size_stmt, size_stmts, top_cap,
};
use crate::syntax::{
    duplicate_idents, lemma_view_exprs, lemma_view_stmts, view_exprs, view_idents, view_stmts,
    Binding, BindingRef, Block, Expr, FuncCall, FuncDef, InnerExpr, Literal, MathExpr, Parsed,
    Reassignment, SpecExpr, SpecInner, SpecStmt, Stmt,
};
use crate::value::{
    find_fact, view_facts, view_vals, EvalError, Halt, RealFact, RealTask, SpecHalt,
    SpecVal, Val,
};

verus! {

/// The mathematical value of an evaluation result.
pub open spec fn outcome(r: Result<Val, Halt>) -> Result<SpecVal, SpecHalt> {
    match r {
        Ok(v) => Ok(v@),
        Err(h) => Err(h@),
    }
}

fn real_of(facts: &Vec<RealFact>, task: RealTask) -> (r: Result<Val, Halt>)
    ensures
        outcome(r) == real_result(view_facts(facts@), task@),
{
    match find_fact(facts, &task) {
        Some(x) => Ok(Val::Real(x)),
        None => Err(Halt::Pending(task)),
    }
}

fn not_real_halt(v: &Val) -> (h: Halt)
    ensures
        h@ == not_real(v@),
{
    Halt::Failed(
        EvalError::InvalidType {
            expected: "a real number".to_owned(),
            received: v.get_type().to_owned(),
        },
    )
}

impl Literal {
    pub fn eval(&self, env: &mut Env, facts: &Vec<RealFact>) -> (r: Result<Val, Halt>)
        ensures
            *final(env) == *old(env),
            outcome(r) == eval_literal(self@, view_facts(facts@)),
    {
        match self {
            Literal::Str(s) => Ok(Val::Str(s.0.clone())),
            Literal::Bool(b) => Ok(Val::Bool(b.0)),
            Literal::Real(t) => real_of(facts, RealTask::Decimal(t.0.clone())),
        }
    }
}

impl BindingRef {
    /// The value that the name refers to, looking outwards from the innermost
    /// scope.
    pub fn eval(&self, env: &mut Env, facts: &Vec<RealFact>) -> (r: Result<Val, Halt>)
        ensures
            *final(env) == *old(env),
            outcome(r) == run_inner(SpecInner::Ref(self@), old(env)@, view_facts(facts@)),
    {
        match env.get_stored_binding(&self.id) {
            Ok((v, _)) => Ok(v),
            Err(e) => Err(Halt::Failed(e)),
        }
    }
}

impl Expr {
    fn eval_in(&self, env: &mut Env, facts: &Vec<RealFact>, Ghost(cap): Ghost<nat>) -> (r: Result<Val, Halt>)
        requires
            old(env).wf(),
            size_expr(self@) <= cap,
            bodies_below(old(env)@, cap),
        ensures
            final(env).wf(),
            final(env)@ == old(env)@,
            outcome(r) == eval_expr(self@, old(env)@, view_facts(facts@), cap),
        decreases cap, self,
    {
        let v = self.inner.eval_in(env, facts, Ghost(cap))?;
        match self.negate {
            Some(_) => match v {
                Val::Bool(b) => Ok(Val::Bool(!b)),
                other => Ok(other),
            },
            None => Ok(v),
        }
    }

    /// Evaluates the expression; `env` comes back as it was.
    pub fn eval(&self, env: &mut Env, facts: &Vec<RealFact>) -> (r: Result<Val, Halt>)
        requires
            old(env).wf(),
        ensures
            final(env).wf(),
            final(env)@ == old(env)@,
            outcome(r) == run_expr(self@, old(env)@, view_facts(facts@)),
    {
        proof {
            lemma_top_cap(size_expr(self@), env@);
        }
        self.eval_in(env, facts, Ghost(top_cap(size_expr(self@), env@)))
    }
}

impl InnerExpr {
    fn eval_in(&self, env: &mut Env, facts: &Vec<RealFact>, Ghost(cap): Ghost<nat>) -> (r: Result<Val, Halt>)
        requires
            old(env).wf(),
            size_inner(self@) <= cap,
            bodies_below(old(env)@, cap),
        ensures
            final(env).wf(),
            final(env)@ == old(env)@,
            outcome(r) == eval_inner(self@, old(env)@, view_facts(facts@), cap),
        decreases cap, self,
    {
        match self {
            InnerExpr::Simple(l) => l.eval(env, facts),
            InnerExpr::MathExpr(m) => m.eval_in(env, facts, Ghost(cap)),
            InnerExpr::BindingRef(b) => b.eval(env, facts),
            InnerExpr::FuncCall(c) => c.eval_in(env, facts, Ghost(cap)),
            InnerExpr::Block(b) => b.eval_in(env, facts, Ghost(cap)),
        }
    }
}

impl MathExpr {
    fn eval_in(&self, env: &mut Env, facts: &Vec<RealFact>, Ghost(cap): Ghost<nat>) -> (r: Result<Val, Halt>)
        requires
            old(env).wf(),
            size_inner(math_inner(self@)) <= cap,
            bodies_below(old(env)@, cap),
        ensures
            final(env).wf(),
            final(env)@ == old(env)@,
            outcome(r) == eval_inner(math_inner(self@), old(env)@, view_facts(facts@), cap),
        decreases cap, self,
    {
        let a = match self.lhs.eval_in(env, facts, Ghost(cap)) {
            Err(h) => {
                return Err(h);
            },
            Ok(Val::Real(a)) => a,
            Ok(v) => {
                return Err(not_real_halt(&v));
            },
        };
        let b = match self.rhs.eval_in(env, facts, Ghost(cap)) {
            Err(h) => {
                return Err(h);
            },
            Ok(Val::Real(b)) => b,
            Ok(v) => {
                return Err(not_real_halt(&v));
            },
        };
        real_of(facts, RealTask::Apply(self.op, a, b))
    }

    /// Evaluates both operands, which must be reals, and combines them.
    pub fn eval(&self, env: &mut Env, facts: &Vec<RealFact>) -> (r: Result<Val, Halt>)
        requires
            old(env).wf(),
        ensures
            final(env).wf(),
            final(env)@ == old(env)@,
            outcome(r) == run_inner(math_inner(self@), old(env)@, view_facts(facts@)),
    {
        proof {
            lemma_top_cap(size_inner(math_inner(self@)), env@);
        }
        self.eval_in(env, facts, Ghost(top_cap(size_inner(math_inner(self@)), env@)))
    }
}

impl FuncCall {
    fn eval_in(&self, env: &mut Env, facts: &Vec<RealFact>, Ghost(cap): Ghost<nat>) -> (r: Result<Val, Halt>)
        requires
            old(env).wf(),
            size_inner(SpecInner::Call(self.callee@, view_exprs(self.params@))) <= cap,
            bodies_below(old(env)@, cap),
        ensures
            final(env).wf(),
            final(env)@ == old(env)@,
            outcome(r) == eval_inner(
                SpecInner::Call(self.callee@, view_exprs(self.params@)),
                old(env)@,
                view_facts(facts@),
                cap,
            ),
        decreases cap, self,
    {
        let ghost env0 = env@;
        let ghost t = view_facts(facts@);
        let ghost args = view_exprs(self.params@);
        proof {
            lemma_view_exprs(self.params@);
        }
        let n = match env.get_stored_func(&self.callee) {
            Err(e) => {
                return Err(Halt::Failed(e));
            },
            Ok(f) => f.params.len(),
        };
        if n != self.params.len() {
            return Err(Halt::Failed(EvalError::InvalidArgumentLen));
        }
        let mut vals: Vec<Val> = Vec::new();
        let mut i: usize = 0;
        assert(args.subrange(0, args.len() as int) =~= args);
        assert(view_vals(vals@) + Seq::<SpecVal>::empty() =~= Seq::<SpecVal>::empty());
        while i < self.params.len()
            invariant
                env.wf(),
                env@ == env0,
                env0 == old(env)@,
                bodies_below(env0, cap),
                0 <= i <= self.params.len(),
                n == self.params.len(),
                args == view_exprs(self.params@),
                args.len() == self.params.len(),
                forall|k: int| 0 <= k < args.len() ==> #[trigger] args[k] == self.params@[k]@,
                vals.len() == i,
                1 + size_exprs(args) <= cap,
                t == view_facts(facts@),
                match function_of(env0, self.callee@) {
                    Ok((ps, _)) => ps.len() == args.len(),
                    Err(_) => false,
                },
                eval_args(args, env0, t, cap) == match eval_args(
                    args.subrange(i as int, args.len() as int),
                    env0,
                    t,
                    cap,
                ) {
                    Err(h) => Err(h),
                    Ok(vs) => Ok(view_vals(vals@) + vs),
                },
            decreases self.params.len() - i,
        {
            proof {
                lemma_size_exprs(args, i as int);
            }
            let ghost sub = args.subrange(i as int, args.len() as int);
            assert(sub[0] == args[i as int]);
            assert(sub.subrange(1, sub.len() as int) =~= args.subrange(i + 1, args.len() as int));
            assert(decreases_to!(self.params => self.params@[i as int]));
            match self.params[i].eval_in(env, facts, Ghost(cap)) {
                Err(h) => {
                    return Err(h);
                },
                Ok(v) => {
                    proof {
                        let rest = eval_args(args.subrange(i + 1, args.len() as int), env0, t, cap);
                        if let Ok(vs) = rest {
                            assert(view_vals(vals@.push(v)) =~= view_vals(vals@).push(v@));
                            assert(view_vals(vals@) + (seq![v@] + vs) =~= view_vals(vals@).push(v@) + vs);
                        }
                    }
                    vals.push(v);
                },
            }
            i = i + 1;
        }
        assert(args.subrange(args.len() as int, args.len() as int) =~= Seq::<SpecExpr>::empty());
        assert(view_vals(vals@) + Seq::<SpecVal>::empty() =~= view_vals(vals@));
        let f = match env.get_stored_func(&self.callee) {
            Err(e) => {
                return Err(Halt::Failed(e));
            },
            Ok(f) => f,
        };
        proof {
            lemma_lookup_below(env0, self.callee@, cap);
        }
        let ghost ps = view_idents(f.params@);
        let ghost vs = view_vals(vals@);
        let ghost bound = size_expr(f.body@);
        let mut fresh = Env::new();
        let mut j: usize = 0;
        assert(fresh@ =~= seq![bind_params(ps, vs, 0)]);
        while j < n
            invariant
                fresh.wf(),
                fresh@ == seq![bind_params(ps, vs, j as nat)],
                bodies_below(fresh@, bound),
                0 <= j <= n,
                n == f.params.len(),
                n == vals.len(),
                ps == view_idents(f.params@),
                vs == view_vals(vals@),
            decreases n - j,
        {
            let ghost before = fresh@;
            fresh.store_binding(f.params[j].duplicate(), vals[j].duplicate(), false);
            proof {
                lemma_store_below(before, ps[j as int], SpecEntry::Value(vs[j as int], false), bound);
                assert(fresh@ =~= seq![bind_params(ps, vs, (j + 1) as nat)]);
            }
            j = j + 1;
        }
        f.body.eval_in(&mut fresh, facts, Ghost(bound))
    }

    /// Calls the named function: the arguments are evaluated here, left to
    /// right, and the body in a scope holding only the parameters.
    pub fn eval(&self, env: &mut Env, facts: &Vec<RealFact>) -> (r: Result<Val, Halt>)
        requires
            old(env).wf(),
        ensures
            final(env).wf(),
            final(env)@ == old(env)@,
            outcome(r) == run_inner(
                SpecInner::Call(self.callee@, view_exprs(self.params@)),
                old(env)@,
                view_facts(facts@),
            ),
    {
        let ghost i = SpecInner::Call(self.callee@, view_exprs(self.params@));
        proof {
            lemma_top_cap(size_inner(i), env@);
        }
        self.eval_in(env, facts, Ghost(top_cap(size_inner(i), env@)))
    }
}

impl Block {
    fn eval_in(&self, env: &mut Env, facts: &Vec<RealFact>, Ghost(cap): Ghost<nat>) -> (r: Result<Val, Halt>)
        requires
            old(env).wf(),
            size_inner(SpecInner::Block(view_stmts(self.stmts@))) <= cap,
            bodies_below(old(env)@, cap),
        ensures
            final(env).wf(),
            final(env)@ == old(env)@,
            outcome(r) == eval_inner(
                SpecInner::Block(view_stmts(self.stmts@)),
                old(env)@,
                view_facts(facts@),
                cap,
            ),
        decreases cap, self,
    {
        let n = self.stmts.len();
        let ghost ss = view_stmts(self.stmts@);
        let ghost env0 = env@;
        let ghost t = view_facts(facts@);
        proof {
            lemma_view_stmts(self.stmts@);
        }
        if n == 0 {
            return Ok(Val::Unit);
        }
        proof {
            env.lemma_wf();
        }
        env.push_scope();
        proof {
            assert(ss.subrange(0, n as int) =~= ss);
            assert forall|k: int, j: int| 0 <= k < env@.len() && 0 <= j < env@[k].len() implies #[trigger] entry_bound(env@[k][j].1) <= cap by {
                assert(env@[k] == env0[k]);
            }
        }
        let mut i: usize = 0;
        loop
            invariant
                env.wf(),
                env0.len() >= 1,
                env0 == old(env)@,
                env@.len() == env0.len() + 1,
                env@.drop_last() == env0,
                bodies_below(env@, cap),
                0 <= i < n,
                n == self.stmts.len(),
                ss == view_stmts(self.stmts@),
                ss.len() == n,
                forall|k: int| 0 <= k < n ==> #[trigger] ss[k] == self.stmts@[k]@,
                1 + size_stmts(ss) <= cap,
                t == view_facts(facts@),
                eval_stmts(ss, env0.push(SpecScope::empty()), t, cap) == eval_stmts(
                    ss.subrange(i as int, n as int),
                    env@,
                    t,
                    cap,
                ),
            decreases n - i,
        {
            proof {
                lemma_size_stmts(ss, i as int);
            }
            let ghost sub = ss.subrange(i as int, n as int);
            assert(sub[0] == ss[i as int]);
            assert(sub.subrange(1, sub.len() as int) =~= ss.subrange(i + 1, n as int));
            assert(decreases_to!(self.stmts => self.stmts@[i as int]));
            let r = self.stmts[i].eval_in(env, facts, Ghost(cap));
            if i + 1 == n {
                env.pop_scope();
                return r;
            }
            match r {
                Err(h) => {
                    env.pop_scope();
                    return Err(h);
                },
                Ok(_) => {},
            }
            i = i + 1;
        }
    }

    /// Runs the statements in a new innermost scope, which is dropped after;
    /// the value is the last statement's, or unit for an empty block.
    pub fn eval(&self, env: &mut Env, facts: &Vec<RealFact>) -> (r: Result<Val, Halt>)
        requires
            old(env).wf(),
        ensures
            final(env).wf(),
            final(env)@ == old(env)@,
            outcome(r) == run_inner(
                SpecInner::Block(view_stmts(self.stmts@)),
                old(env)@,
                view_facts(facts@),
            ),
    {
        let ghost i = SpecInner::Block(view_stmts(self.stmts@));
        proof {
            lemma_top_cap(size_inner(i), env@);
        }
        self.eval_in(env, facts, Ghost(top_cap(size_inner(i), env@)))
    }
}

impl Stmt {
    fn eval_in(&self, env: &mut Env, facts: &Vec<RealFact>, Ghost(cap): Ghost<nat>) -> (r: Result<Val, Halt>)
        requires
            old(env).wf(),
            size_stmt(self@) <= cap,
            bodies_below(old(env)@, cap),
        ensures
            final(env).wf(),
            final(env)@.len() == old(env)@.len(),
            final(env)@.drop_last() == old(env)@.drop_last(),
            bodies_below(final(env)@, cap),
            outcome(r) == eval_stmt(self@, old(env)@, view_facts(facts@), cap).0,
            final(env)@ == eval_stmt(self@, old(env)@, view_facts(facts@), cap).1,
        decreases cap, self,
    {
        match self {
            Stmt::Binding(b) => b.eval_in(env, facts, Ghost(cap)),
            Stmt::Expr(e) => e.eval_in(env, facts, Ghost(cap)),
            Stmt::Func(f) => f.eval_in(env, Ghost(cap)),
        }
    }

    /// Runs the statement; bindings and definitions go to the innermost scope.
    pub fn eval(&self, env: &mut Env, facts: &Vec<RealFact>) -> (r: Result<Val, Halt>)
        requires
            old(env).wf(),
        ensures
            final(env).wf(),
            outcome(r) == run_stmt(self@, old(env)@, view_facts(facts@)).0,
            final(env)@ == run_stmt(self@, old(env)@, view_facts(facts@)).1,
    {
        proof {
            lemma_top_cap(size_stmt(self@), env@);
        }
        self.eval_in(env, facts, Ghost(top_cap(size_stmt(self@), env@)))
    }
}

impl Binding {
    fn eval_in(&self, env: &mut Env, facts: &Vec<RealFact>, Ghost(cap): Ghost<nat>) -> (r: Result<Val, Halt>)
        requires
            old(env).wf(),
            size_stmt(SpecStmt::Binding(self@.0, self@.1, self@.2)) <= cap,
            bodies_below(old(env)@, cap),
        ensures
            final(env).wf(),
            final(env)@.len() == old(env)@.len(),
            final(env)@.drop_last() == old(env)@.drop_last(),
            bodies_below(final(env)@, cap),
            outcome(r) == eval_stmt(SpecStmt::Binding(self@.0, self@.1, self@.2), old(env)@, view_facts(facts@), cap).0,
            final(env)@ == eval_stmt(SpecStmt::Binding(self@.0, self@.1, self@.2), old(env)@, view_facts(facts@), cap).1,
        decreases cap, self,
    {
        let v = self.expr.eval_in(env, facts, Ghost(cap))?;
        let immutable = match self.immutable {
            Some(_) => true,
            None => false,
        };
        proof {
            env.lemma_wf();
            lemma_store_below(env@, self.ident@, SpecEntry::Value(v@, immutable), cap);
        }
        env.store_binding(self.ident.duplicate(), v, immutable);
        Ok(Val::Unit)
    }

    /// Evaluates the expression and binds its value in the innermost scope.
    pub fn eval(&self, env: &mut Env, facts: &Vec<RealFact>) -> (r: Result<Val, Halt>)
        requires
            old(env).wf(),
        ensures
            final(env).wf(),
            outcome(r) == run_stmt(SpecStmt::Binding(self@.0, self@.1, self@.2), old(env)@, view_facts(facts@)).0,
            final(env)@ == run_stmt(SpecStmt::Binding(self@.0, self@.1, self@.2), old(env)@, view_facts(facts@)).1,
    {
        let ghost st = SpecStmt::Binding(self@.0, self@.1, self@.2);
        proof {
            lemma_top_cap(size_stmt(st), env@);
        }
        self.eval_in(env, facts, Ghost(top_cap(size_stmt(st), env@)))
    }
}

impl FuncDef {
    fn eval_in(&self, env: &mut Env, Ghost(cap): Ghost<nat>) -> (r: Result<Val, Halt>)
        requires
            old(env).wf(),
            size_stmt(SpecStmt::Func(self@.0, self@.1, self@.2)) <= cap,
            bodies_below(old(env)@, cap),
        ensures
            final(env).wf(),
            final(env)@.len() == old(env)@.len(),
            final(env)@.drop_last() == old(env)@.drop_last(),
            bodies_below(final(env)@, cap),
            r == Ok::<Val, Halt>(Val::Unit),
            final(env)@ == env_store(old(env)@, self.id@, SpecEntry::Func(self@.1, self@.2)),
    {
        proof {
            env.lemma_wf();
            lemma_store_below(env@, self.id@, SpecEntry::Func(self@.1, self@.2), cap);
        }
        env.store_func(self.id.duplicate(), duplicate_idents(&self.params), self.body.duplicate());
        Ok(Val::Unit)
    }

    /// Stores the function in the innermost scope, in place of whatever that
    /// scope held under its name.
    pub fn eval(&self, env: &mut Env, facts: &Vec<RealFact>) -> (r: Result<Val, Halt>)
        requires
            old(env).wf(),
        ensures
            final(env).wf(),
            r == Ok::<Val, Halt>(Val::Unit),
            final(env)@ == env_store(old(env)@, self.id@, SpecEntry::Func(self@.1, self@.2)),
    {
        proof {
            lemma_top_cap(size_stmt(SpecStmt::Func(self@.0, self@.1, self@.2)), env@);
        }
        self.eval_in(env, Ghost(top_cap(size_stmt(SpecStmt::Func(self@.0, self@.1, self@.2)), env@)))
    }
}

impl Reassignment {
    /// Gives the binding a new value: the name must name a value somewhere,
    /// and only the innermost scope's binding can change.
    pub fn eval(&self, env: &mut Env, facts: &Vec<RealFact>) -> (r: Result<Val, Halt>)
        requires
            old(env).wf(),
        ensures
            final(env).wf(),
            outcome(r) == run_reassign(self.lhs@, self.rhs@, old(env)@, view_facts(facts@)).0,
            final(env)@ == run_reassign(self.lhs@, self.rhs@, old(env)@, view_facts(facts@)).1,
    {
        proof {
            lemma_top_cap(size_expr(self.rhs@), env@);
        }
        match env.get_stored_binding(&self.lhs) {
            Err(e) => {
                return Err(Halt::Failed(e));
            },
            Ok(_) => {},
        }
        let v = self.rhs.eval_in(env, facts, Ghost(top_cap(size_expr(self.rhs@), env@)))?;
        match env.reassign_binding(self.lhs.duplicate(), v) {
            Err(e) => Err(Halt::Failed(e)),
            Ok(()) => Ok(Val::Unit),
        }
    }
}

impl Parsed {
    pub fn eval(&self, env: &mut Env, facts: &Vec<RealFact>) -> (r: Result<Val, Halt>)
        requires
            old(env).wf(),
        ensures
            final(env).wf(),
            outcome(r) == run_stmt(self@, old(env)@, view_facts(facts@)).0,
            final(env)@ == run_stmt(self@, old(env)@, view_facts(facts@)).1,
    {
        self.0.eval(env, facts)
    }
}

} // verus!
