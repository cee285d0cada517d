//! What evaluation means, as spec functions over the syntax and environment
//! models.
//!
//! Real-number work is looked up in a list of facts supplied by the caller;
//! where no fact covers it, evaluation halts with that work pending.
//!
//! Every rule carries `cap`, a bound on the size of each function body that
//! the environment holds. A call runs its body with the body's size as the
//! new bound, which is what makes evaluation terminate.
use vstd::prelude::*;

use crate::env::{
    binding_of, env_store, find, find_from, function_of, lookup, reassigned, scope_store,
    SpecEntry, SpecEnv, SpecScope,
};
use crate::syntax::{Op, SpecExpr, SpecInner, SpecLiteral, SpecStmt};
use crate::value::{fact_for, type_label, Real, SpecEvalError, SpecHalt, SpecRealTask, SpecVal};

verus! {

pub open spec fn size_expr(e: SpecExpr) -> nat
    decreases e,
{
    1 + size_inner(e.inner)
}

pub open spec fn size_inner(i: SpecInner) -> nat
    decreases i,
{
    match i {
        SpecInner::Simple(_) => 1,
        SpecInner::Math(l, _, r) => 1 + size_expr(*l) + size_expr(*r),
        SpecInner::Ref(_) => 1,
        SpecInner::Call(_, args) => 1 + size_exprs(args),
        SpecInner::Block(ss) => 1 + size_stmts(ss),
    }
}

pub open spec fn size_exprs(s: Seq<SpecExpr>) -> nat
    decreases s,
{
    if s.len() == 0 {
        0
    } else {
        size_expr(s[0]) + size_exprs(s.subrange(1, s.len() as int))
    }
}

pub open spec fn size_stmt(st: SpecStmt) -> nat
    decreases st,
{
    match st {
        SpecStmt::Binding(_, _, e) => 1 + size_expr(e),
        SpecStmt::Expr(e) => 1 + size_expr(e),
        SpecStmt::Func(_, _, b) => 1 + size_expr(b),
    }
}

pub open spec fn size_stmts(s: Seq<SpecStmt>) -> nat
    decreases s,
{
    if s.len() == 0 {
        0
    } else {
        size_stmt(s[0]) + size_stmts(s.subrange(1, s.len() as int))
    }
}

/// One more than the size of the body that an entry holds; zero for a value.
pub open spec fn entry_bound(e: SpecEntry) -> nat {
    match e {
        SpecEntry::Value(_, _) => 0,
        SpecEntry::Func(_, b) => size_expr(b) + 1,
    }
}

/// Every function body in `env` is smaller than `cap`.
pub open spec fn bodies_below(env: SpecEnv, cap: nat) -> bool {
    forall|k: int, j: int|
        0 <= k < env.len() && 0 <= j < env[k].len() ==> #[trigger] entry_bound(env[k][j].1) <= cap
}

pub open spec fn scope_cap(sc: SpecScope) -> nat
    decreases sc.len(),
{
    if sc.len() == 0 {
        0
    } else {
        let a = scope_cap(sc.drop_last());
        let b = entry_bound(sc.last().1);
        if a >= b {
            a
        } else {
            b
        }
    }
}

pub open spec fn env_cap(env: SpecEnv) -> nat
    decreases env.len(),
{
    if env.len() == 0 {
        0
    } else {
        let a = env_cap(env.drop_last());
        let b = scope_cap(env.last());
        if a >= b {
            a
        } else {
            b
        }
    }
}

/// The bound that evaluating a tree of the given size in `env` starts from.
pub open spec fn top_cap(size: nat, env: SpecEnv) -> nat {
    if size >= env_cap(env) {
        size
    } else {
        env_cap(env)
    }
}

pub open spec fn negated(v: SpecVal) -> SpecVal {
    match v {
        SpecVal::Bool(b) => SpecVal::Bool(!b),
        _ => v,
    }
}

pub open spec fn not_real(v: SpecVal) -> SpecHalt {
    SpecHalt::Failed(SpecEvalError::InvalidType("a real number"@, type_label(v)))
}

/// The real that a fact gives for `task`, or `task` itself as pending work.
pub open spec fn real_result(t: Seq<(SpecRealTask, Real)>, task: SpecRealTask) -> Result<SpecVal, SpecHalt> {
    match fact_for(t, task) {
        Some(r) => Ok(SpecVal::Real(r)),
        None => Err(SpecHalt::Pending(task)),
    }
}

pub open spec fn eval_literal(l: SpecLiteral, t: Seq<(SpecRealTask, Real)>) -> Result<SpecVal, SpecHalt> {
    match l {
        SpecLiteral::Str(s) => Ok(SpecVal::Str(s)),
        SpecLiteral::Bool(b) => Ok(SpecVal::Bool(b)),
        SpecLiteral::Real(text) => real_result(t, SpecRealTask::Decimal(text)),
    }
}

/// A scope holding the first `n` parameters bound, in order, to the first `n`
/// values; a repeated name keeps its last value.
pub open spec fn bind_params(ps: Seq<Seq<char>>, vs: Seq<SpecVal>, n: nat) -> SpecScope
    decreases n,
{
    if n == 0 {
        SpecScope::empty()
    } else {
        scope_store(
            bind_params(ps, vs, (n - 1) as nat),
            ps[n - 1],
            SpecEntry::Value(vs[n - 1], false),
        )
    }
}

pub open spec fn eval_expr(e: SpecExpr, env: SpecEnv, t: Seq<(SpecRealTask, Real)>, cap: nat) -> Result<SpecVal, SpecHalt>
    decreases cap, e,
{
    match eval_inner(e.inner, env, t, cap) {
        Err(h) => Err(h),
        Ok(v) => Ok(
            if e.negate {
                negated(v)
            } else {
                v
            },
        ),
    }
}

pub open spec fn eval_inner(i: SpecInner, env: SpecEnv, t: Seq<(SpecRealTask, Real)>, cap: nat) -> Result<SpecVal, SpecHalt>
    decreases cap, i,
{
    match i {
        SpecInner::Simple(l) => eval_literal(l, t),
        SpecInner::Math(l, o, r) => match eval_expr(*l, env, t, cap) {
            Err(h) => Err(h),
            Ok(SpecVal::Real(a)) => match eval_expr(*r, env, t, cap) {
                Err(h) => Err(h),
                Ok(SpecVal::Real(b)) => real_result(t, SpecRealTask::Apply(o, a, b)),
                Ok(w) => Err(not_real(w)),
            },
            Ok(v) => Err(not_real(v)),
        },
        SpecInner::Ref(id) => match binding_of(env, id) {
            Ok((v, _)) => Ok(v),
            Err(x) => Err(SpecHalt::Failed(x)),
        },
        SpecInner::Call(f, args) => match function_of(env, f) {
            Err(x) => Err(SpecHalt::Failed(x)),
            Ok((ps, body)) => if ps.len() != args.len() {
                Err(SpecHalt::Failed(SpecEvalError::InvalidArgumentLen))
            } else {
                match eval_args(args, env, t, cap) {
                    Err(h) => Err(h),
                    Ok(vs) => if size_expr(body) < cap {
                        eval_expr(body, seq![bind_params(ps, vs, ps.len())], t, size_expr(body))
                    } else {
                        // never taken where `bodies_below(env, cap)` holds
                        Err(SpecHalt::Failed(SpecEvalError::InvalidStoredType))
                    },
                }
            },
        },
        SpecInner::Block(ss) => if ss.len() == 0 {
            Ok(SpecVal::Unit)
        } else {
            eval_stmts(ss, env.push(SpecScope::empty()), t, cap).0
        },
    }
}

/// The arguments' values, left to right, or the first halt.
pub open spec fn eval_args(args: Seq<SpecExpr>, env: SpecEnv, t: Seq<(SpecRealTask, Real)>, cap: nat) -> Result<Seq<SpecVal>, SpecHalt>
    decreases cap, args,
{
    if args.len() == 0 {
        Ok(seq![])
    } else {
        match eval_expr(args[0], env, t, cap) {
            Err(h) => Err(h),
            Ok(v) => match eval_args(args.subrange(1, args.len() as int), env, t, cap) {
                Err(h) => Err(h),
                Ok(vs) => Ok(seq![v] + vs),
            },
        }
    }
}

/// Runs statements in order: the value of the last, or the first halt, and
/// the environment they leave.
pub open spec fn eval_stmts(ss: Seq<SpecStmt>, env: SpecEnv, t: Seq<(SpecRealTask, Real)>, cap: nat) -> (Result<SpecVal, SpecHalt>, SpecEnv)
    decreases cap, ss,
{
    if ss.len() == 0 {
        (Ok(SpecVal::Unit), env)
    } else {
        let (r, env1) = eval_stmt(ss[0], env, t, cap);
        if ss.len() == 1 {
            (r, env1)
        } else {
            match r {
                Err(h) => (Err(h), env1),
                Ok(_) => eval_stmts(ss.subrange(1, ss.len() as int), env1, t, cap),
            }
        }
    }
}

/// A statement's value and the environment it leaves. Bindings and
/// definitions are worth unit.
pub open spec fn eval_stmt(st: SpecStmt, env: SpecEnv, t: Seq<(SpecRealTask, Real)>, cap: nat) -> (Result<SpecVal, SpecHalt>, SpecEnv)
    decreases cap, st,
{
    match st {
        SpecStmt::Binding(imm, id, e) => match eval_expr(e, env, t, cap) {
            Err(h) => (Err(h), env),
            Ok(v) => (Ok(SpecVal::Unit), env_store(env, id, SpecEntry::Value(v, imm))),
        },
        SpecStmt::Expr(e) => (eval_expr(e, env, t, cap), env),
        SpecStmt::Func(f, ps, b) => (Ok(SpecVal::Unit), env_store(env, f, SpecEntry::Func(ps, b))),
    }
}

/// `id = e`: `id` must name a value somewhere; the new value goes to the
/// innermost scope's binding of `id`.
pub open spec fn eval_reassign(id: Seq<char>, e: SpecExpr, env: SpecEnv, t: Seq<(SpecRealTask, Real)>, cap: nat) -> (Result<SpecVal, SpecHalt>, SpecEnv) {
    match binding_of(env, id) {
        Err(x) => (Err(SpecHalt::Failed(x)), env),
        Ok(_) => match eval_expr(e, env, t, cap) {
            Err(h) => (Err(h), env),
            Ok(v) => match reassigned(env, id, v) {
                Err(x) => (Err(SpecHalt::Failed(x)), env),
                Ok(env2) => (Ok(SpecVal::Unit), env2),
            },
        },
    }
}

/// Evaluation of an expression from the bound that `env` calls for.
pub open spec fn run_expr(e: SpecExpr, env: SpecEnv, t: Seq<(SpecRealTask, Real)>) -> Result<SpecVal, SpecHalt> {
    eval_expr(e, env, t, top_cap(size_expr(e), env))
}

pub open spec fn run_inner(i: SpecInner, env: SpecEnv, t: Seq<(SpecRealTask, Real)>) -> Result<SpecVal, SpecHalt> {
    eval_inner(i, env, t, top_cap(size_inner(i), env))
}

pub open spec fn run_stmt(st: SpecStmt, env: SpecEnv, t: Seq<(SpecRealTask, Real)>) -> (Result<SpecVal, SpecHalt>, SpecEnv) {
    eval_stmt(st, env, t, top_cap(size_stmt(st), env))
}

pub open spec fn run_reassign(id: Seq<char>, e: SpecExpr, env: SpecEnv, t: Seq<(SpecRealTask, Real)>) -> (Result<SpecVal, SpecHalt>, SpecEnv) {
    eval_reassign(id, e, env, t, top_cap(size_expr(e), env))
}

pub open spec fn math_inner(m: (SpecExpr, Op, SpecExpr)) -> SpecInner {
    SpecInner::Math(Box::new(m.0), m.1, Box::new(m.2))
}

pub proof fn lemma_size_exprs(s: Seq<SpecExpr>, i: int)
    requires
        0 <= i < s.len(),
    ensures
        size_expr(s[i]) <= size_exprs(s),
    decreases s.len(),
{
    if i > 0 {
        lemma_size_exprs(s.subrange(1, s.len() as int), i - 1);
    }
}

pub proof fn lemma_size_stmts(s: Seq<SpecStmt>, i: int)
    requires
        0 <= i < s.len(),
    ensures
        size_stmt(s[i]) <= size_stmts(s),
    decreases s.len(),
{
    if i > 0 {
        lemma_size_stmts(s.subrange(1, s.len() as int), i - 1);
    }
}

pub proof fn lemma_find_from(sc: SpecScope, id: Seq<char>, i: int)
    ensures
        find_from(sc, id, i) matches Some(j) ==> i <= j < sc.len() && sc[j].0 == id,
    decreases sc.len() - i,
{
    if 0 <= i < sc.len() && sc[i].0 != id {
        lemma_find_from(sc, id, i + 1);
    }
}

pub proof fn lemma_lookup_below(env: SpecEnv, id: Seq<char>, cap: nat)
    requires
        bodies_below(env, cap),
    ensures
        lookup(env, id) matches Some(e) ==> entry_bound(e) <= cap,
    decreases env.len(),
{
    if env.len() > 0 {
        lemma_find_from(env.last(), id, 0);
        match find(env.last(), id) {
            Some(j) => {
                assert(entry_bound(env[env.len() - 1][j].1) <= cap);
            },
            None => {
                let d = env.drop_last();
                assert forall|k: int, j: int| 0 <= k < d.len() && 0 <= j < d[k].len() implies #[trigger] entry_bound(d[k][j].1) <= cap by {
                    assert(d[k] == env[k]);
                }
                lemma_lookup_below(d, id, cap);
            },
        }
    }
}

pub proof fn lemma_store_below(env: SpecEnv, id: Seq<char>, e: SpecEntry, cap: nat)
    requires
        env.len() >= 1,
        bodies_below(env, cap),
        entry_bound(e) <= cap,
    ensures
        bodies_below(env_store(env, id, e), cap),
        env_store(env, id, e).len() == env.len(),
        env_store(env, id, e).drop_last() == env.drop_last(),
{
    let n = env.len() - 1;
    let sc = env.last();
    lemma_find_from(sc, id, 0);
    let sc2 = scope_store(sc, id, e);
    let r = env_store(env, id, e);
    assert forall|k: int, j: int| 0 <= k < r.len() && 0 <= j < r[k].len() implies #[trigger] entry_bound(r[k][j].1) <= cap by {
        if k == n {
            if j < sc.len() && sc2[j] == sc[j] {
                assert(entry_bound(env[n][j].1) <= cap);
            }
        } else {
            assert(r[k] == env[k]);
        }
    }
    assert(r.drop_last() =~= env.drop_last());
}

pub proof fn lemma_scope_cap(sc: SpecScope)
    ensures
        forall|j: int| 0 <= j < sc.len() ==> #[trigger] entry_bound(sc[j].1) <= scope_cap(sc),
    decreases sc.len(),
{
    if sc.len() > 0 {
        lemma_scope_cap(sc.drop_last());
        assert forall|j: int| 0 <= j < sc.len() implies #[trigger] entry_bound(sc[j].1) <= scope_cap(sc) by {
            if j < sc.len() - 1 {
                assert(sc.drop_last()[j] == sc[j]);
            }
        }
    }
}

pub proof fn lemma_env_cap(env: SpecEnv)
    ensures
        bodies_below(env, env_cap(env)),
    decreases env.len(),
{
    if env.len() > 0 {
        let d = env.drop_last();
        lemma_env_cap(d);
        lemma_scope_cap(env.last());
        assert forall|k: int, j: int| 0 <= k < env.len() && 0 <= j < env[k].len() implies #[trigger] entry_bound(env[k][j].1) <= env_cap(env) by {
            if k < env.len() - 1 {
                assert(d[k] == env[k]);
                assert(entry_bound(d[k][j].1) <= env_cap(d));
            } else {
                assert(env.last() == env[k]);
                assert(entry_bound(env.last()[j].1) <= scope_cap(env.last()));
            }
        }
    }
}

pub proof fn lemma_top_cap(size: nat, env: SpecEnv)
    ensures
        bodies_below(env, top_cap(size, env)),
        size <= top_cap(size, env),
{
    lemma_env_cap(env);
    let c = top_cap(size, env);
    assert forall|k: int, j: int| 0 <= k < env.len() && 0 <= j < env[k].len() implies #[trigger] entry_bound(env[k][j].1) <= c by {
        assert(entry_bound(env[k][j].1) <= env_cap(env));
    }
}

/// Statements keep every stored body below the bound that they fit in.
pub proof fn lemma_stmt_below(st: SpecStmt, env: SpecEnv, t: Seq<(SpecRealTask, Real)>, cap: nat)
    requires
        env.len() >= 1,
        size_stmt(st) <= cap,
        bodies_below(env, cap),
    ensures
        eval_stmt(st, env, t, cap).1.len() == env.len(),
        bodies_below(eval_stmt(st, env, t, cap).1, cap),
{
    match st {
        SpecStmt::Binding(imm, id, e) => {
            if let Ok(v) = eval_expr(e, env, t, cap) {
                lemma_store_below(env, id, SpecEntry::Value(v, imm), cap);
            }
        },
        SpecStmt::Expr(_) => {},
        SpecStmt::Func(f, ps, b) => {
            lemma_store_below(env, f, SpecEntry::Func(ps, b), cap);
        },
    }
}

/// Evaluation does not depend on the bound it runs at, as long as the tree
/// fits in it and every body that `env` holds lies below it.
pub proof fn lemma_expr_any_cap(e: SpecExpr, env: SpecEnv, t: Seq<(SpecRealTask, Real)>, c1: nat, c2: nat)
    requires
        size_expr(e) <= c1,
        size_expr(e) <= c2,
        bodies_below(env, c1),
        bodies_below(env, c2),
    ensures
        eval_expr(e, env, t, c1) == eval_expr(e, env, t, c2),
    decreases e,
{
    lemma_inner_any_cap(e.inner, env, t, c1, c2);
}

pub proof fn lemma_inner_any_cap(i: SpecInner, env: SpecEnv, t: Seq<(SpecRealTask, Real)>, c1: nat, c2: nat)
    requires
        size_inner(i) <= c1,
        size_inner(i) <= c2,
        bodies_below(env, c1),
        bodies_below(env, c2),
    ensures
        eval_inner(i, env, t, c1) == eval_inner(i, env, t, c2),
    decreases i,
{
    match i {
        SpecInner::Math(l, o, r) => {
            lemma_expr_any_cap(*l, env, t, c1, c2);
            lemma_expr_any_cap(*r, env, t, c1, c2);
        },
        SpecInner::Call(f, args) => {
            lemma_args_any_cap(args, env, t, c1, c2);
            lemma_lookup_below(env, f, c1);
            lemma_lookup_below(env, f, c2);
        },
        SpecInner::Block(ss) => {
            if ss.len() > 0 {
                let child = env.push(SpecScope::empty());
                assert forall|k: int, j: int| 0 <= k < child.len() && 0 <= j < child[k].len() implies #[trigger] entry_bound(child[k][j].1) <= c1 && entry_bound(child[k][j].1) <= c2 by {
                    assert(child[k] == env[k]);
                }
                lemma_stmts_any_cap(ss, child, t, c1, c2);
            }
        },
        _ => {},
    }
}

pub proof fn lemma_args_any_cap(args: Seq<SpecExpr>, env: SpecEnv, t: Seq<(SpecRealTask, Real)>, c1: nat, c2: nat)
    requires
        size_exprs(args) <= c1,
        size_exprs(args) <= c2,
        bodies_below(env, c1),
        bodies_below(env, c2),
    ensures
        eval_args(args, env, t, c1) == eval_args(args, env, t, c2),
    decreases args,
{
    if args.len() > 0 {
        lemma_expr_any_cap(args[0], env, t, c1, c2);
        lemma_args_any_cap(args.subrange(1, args.len() as int), env, t, c1, c2);
    }
}

pub proof fn lemma_stmt_any_cap(st: SpecStmt, env: SpecEnv, t: Seq<(SpecRealTask, Real)>, c1: nat, c2: nat)
    requires
        size_stmt(st) <= c1,
        size_stmt(st) <= c2,
        bodies_below(env, c1),
        bodies_below(env, c2),
    ensures
        eval_stmt(st, env, t, c1) == eval_stmt(st, env, t, c2),
    decreases st,
{
    match st {
        SpecStmt::Binding(_, _, e) => lemma_expr_any_cap(e, env, t, c1, c2),
        SpecStmt::Expr(e) => lemma_expr_any_cap(e, env, t, c1, c2),
        SpecStmt::Func(_, _, _) => {},
    }
}

pub proof fn lemma_stmts_any_cap(ss: Seq<SpecStmt>, env: SpecEnv, t: Seq<(SpecRealTask, Real)>, c1: nat, c2: nat)
    requires
        env.len() >= 1,
        size_stmts(ss) <= c1,
        size_stmts(ss) <= c2,
        bodies_below(env, c1),
        bodies_below(env, c2),
    ensures
        eval_stmts(ss, env, t, c1) == eval_stmts(ss, env, t, c2),
    decreases ss,
{
    if ss.len() > 0 {
        lemma_stmt_any_cap(ss[0], env, t, c1, c2);
        lemma_stmt_below(ss[0], env, t, c1);
        lemma_stmt_below(ss[0], env, t, c2);
        if ss.len() > 1 {
            let env1 = eval_stmt(ss[0], env, t, c1).1;
            lemma_stmts_any_cap(ss.subrange(1, ss.len() as int), env1, t, c1, c2);
        }
    }
}

/// Evaluating an expression at any bound that fits it and the bodies of
/// `env` gives what the public entry points give.
pub proof fn lemma_run_expr(e: SpecExpr, env: SpecEnv, t: Seq<(SpecRealTask, Real)>, cap: nat)
    requires
        size_expr(e) <= cap,
        bodies_below(env, cap),
    ensures
        eval_expr(e, env, t, cap) == run_expr(e, env, t),
{
    lemma_top_cap(size_expr(e), env);
    lemma_expr_any_cap(e, env, t, cap, top_cap(size_expr(e), env));
}

/// The same for statements.
pub proof fn lemma_run_stmt(st: SpecStmt, env: SpecEnv, t: Seq<(SpecRealTask, Real)>, cap: nat)
    requires
        size_stmt(st) <= cap,
        bodies_below(env, cap),
    ensures
        eval_stmt(st, env, t, cap) == run_stmt(st, env, t),
{
    lemma_top_cap(size_stmt(st), env);
    lemma_stmt_any_cap(st, env, t, cap, top_cap(size_stmt(st), env));
}

} // verus!
