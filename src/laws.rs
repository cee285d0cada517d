//! Properties of the language that hold for every input.
use vstd::prelude::*;

use crate::env::{
    binding_of, env_store, find, find_from, function_of, lemma_find_at, lemma_find_spec, lookup,
    scope_store, SpecEntry, SpecEnv, SpecScope,
};
use crate::error::ParseError;
use crate::semantics::lemma_find_from;
use crate::grammar::stmt_spec;
use crate::parser::parsed_text;
use crate::semantics::{
    bind_params, eval_args, eval_expr, eval_inner, eval_reassign, eval_stmt, eval_stmts, size_expr,
};
use crate::syntax::{Parsed, SpecExpr, SpecInner, SpecStmt};
use crate::value::{Real, SpecEvalError, SpecHalt, SpecRealTask, SpecVal};

verus! {

/// Parsing is deterministic: two parses of the same text give the same
/// leftover text and the same tree, or the same error.
pub proof fn parse_is_deterministic(
    s: Seq<char>,
    r1: Result<(String, Parsed), ParseError>,
    r2: Result<(String, Parsed), ParseError>,
)
    requires
        parsed_text(s, r1, stmt_spec(s, 0)),
        parsed_text(s, r2, stmt_spec(s, 0)),
    ensures
        r1 is Ok <==> r2 is Ok,
        r1 matches Ok((t1, at1)) ==> (r2 matches Ok((t2, at2)) && t1@ == t2@ && at1@ == at2@),
        r1 matches Err(e1) ==> (r2 matches Err(e2) && e1@ == e2@),
{
}

/// A reference to a name that no scope holds fails with identifier-not-found,
/// in whatever environment.
pub proof fn undeclared_reference_fails(
    id: Seq<char>,
    env: SpecEnv,
    t: Seq<(SpecRealTask, Real)>,
    cap: nat,
)
    requires
        lookup(env, id) is None,
    ensures
        eval_inner(SpecInner::Ref(id), env, t, cap) == Err::<SpecVal, SpecHalt>(
            SpecHalt::Failed(SpecEvalError::IdentifierNotFound(id)),
        ),
{
}

pub proof fn lemma_find_none(sc: SpecScope, id: Seq<char>, i: int)
    requires
        0 <= i,
        forall|j: int| i <= j < sc.len() ==> (#[trigger] sc[j]).0 != id,
    ensures
        find_from(sc, id, i) is None,
    decreases sc.len() - i,
{
    if i < sc.len() {
        lemma_find_none(sc, id, i + 1);
    }
}

/// Storing a name other than `id` leaves `id` absent where it was.
pub proof fn lemma_store_other(sc: SpecScope, k: Seq<char>, e: SpecEntry, id: Seq<char>)
    requires
        find(sc, id) is None,
        k != id,
    ensures
        find(scope_store(sc, k, e), id) is None,
{
    let r = scope_store(sc, k, e);
    lemma_find_from(sc, k, 0);
    assert forall|j: int| 0 <= j < sc.len() implies (#[trigger] sc[j]).0 != id by {
        if sc[j].0 == id {
            lemma_find_first(sc, id, 0, j);
        }
    }
    assert forall|j: int| 0 <= j < r.len() implies (#[trigger] r[j]).0 != id by {
        if j < sc.len() && r[j] != sc[j] {
            assert(r[j].0 == k);
        }
    }
    lemma_find_none(r, id, 0);
}

pub proof fn lemma_find_first(sc: SpecScope, id: Seq<char>, i: int, j: int)
    requires
        0 <= i <= j < sc.len(),
        sc[j].0 == id,
    ensures
        find_from(sc, id, i) is Some,
    decreases j - i,
{
    if sc[i].0 != id {
        lemma_find_first(sc, id, i + 1, j);
    }
}

/// The parameters' scope holds no name but the parameters.
pub proof fn lemma_bind_params_absent(ps: Seq<Seq<char>>, vs: Seq<SpecVal>, n: nat, id: Seq<char>)
    requires
        n <= ps.len(),
        n <= vs.len(),
        !ps.subrange(0, n as int).contains(id),
    ensures
        find(bind_params(ps, vs, n), id) is None,
    decreases n,
{
    if n > 0 {
        assert(ps.subrange(0, n as int)[n - 1] == ps[n - 1]);
        assert(ps.subrange(0, n - 1) =~= ps.subrange(0, n as int).drop_last());
        lemma_bind_params_absent(ps, vs, (n - 1) as nat, id);
        lemma_store_other(bind_params(ps, vs, (n - 1) as nat), ps[n - 1], SpecEntry::Value(vs[n - 1], false), id);
    }
}

pub proof fn lemma_eval_args_len(args: Seq<SpecExpr>, env: SpecEnv, t: Seq<(SpecRealTask, Real)>, cap: nat)
    ensures
        eval_args(args, env, t, cap) matches Ok(vs) ==> vs.len() == args.len(),
    decreases args.len(),
{
    if args.len() > 0 {
        lemma_eval_args_len(args.subrange(1, args.len() as int), env, t, cap);
    }
}

/// Functions do not close over the scope that defines them: a function whose
/// body refers to a name that is none of its parameters fails, when called,
/// with identifier-not-found for that name, whatever the caller's scopes hold.
pub proof fn functions_do_not_capture(
    f: Seq<char>,
    args: Seq<SpecExpr>,
    y: Seq<char>,
    env: SpecEnv,
    t: Seq<(SpecRealTask, Real)>,
    cap: nat,
)
    requires
        function_of(env, f) matches Ok((ps, body)) && ps.len() == args.len() && !ps.contains(y)
            && body == (SpecExpr { negate: false, inner: SpecInner::Ref(y) }) && size_expr(body)
            < cap,
        eval_args(args, env, t, cap) is Ok,
    ensures
        eval_inner(SpecInner::Call(f, args), env, t, cap) == Err::<SpecVal, SpecHalt>(
            SpecHalt::Failed(SpecEvalError::IdentifierNotFound(y)),
        ),
{
    let (ps, body) = function_of(env, f)->Ok_0;
    let vs = eval_args(args, env, t, cap)->Ok_0;
    lemma_eval_args_len(args, env, t, cap);
    assert(ps.subrange(0, ps.len() as int) =~= ps);
    lemma_bind_params_absent(ps, vs, ps.len(), y);
    let inner = seq![bind_params(ps, vs, ps.len())];
    assert(inner.drop_last() =~= SpecEnv::empty());
    assert(inner.last() == bind_params(ps, vs, ps.len()));
    assert(lookup(SpecEnv::empty(), y) is None);
    assert(lookup(inner, y) is None);
    assert(eval_expr(body, inner, t, size_expr(body)) == Err::<SpecVal, SpecHalt>(
        SpecHalt::Failed(SpecEvalError::IdentifierNotFound(y)),
    ));
}

/// Right after storing `e` under `id`, the scope's entry for `id` is `e`.
pub proof fn lemma_find_stored(sc: SpecScope, id: Seq<char>, e: SpecEntry)
    ensures
        find(scope_store(sc, id, e), id) matches Some(i) && scope_store(sc, id, e)[i] == (id, e),
{
    lemma_find_spec(sc, id, 0);
    let r = scope_store(sc, id, e);
    match find(sc, id) {
        Some(j) => {
            assert forall|k: int| 0 <= k < j implies (#[trigger] r[k]).0 != id by {
                assert(r[k] == sc[k]);
            }
            lemma_find_at(r, id, 0, j);
        },
        None => {
            let n = sc.len() as int;
            assert forall|k: int| 0 <= k < n implies (#[trigger] r[k]).0 != id by {
                assert(r[k] == sc[k]);
            }
            lemma_find_at(r, id, 0, n);
        },
    }
}

/// A binding makes its name refer to the value bound: once `bind id = e`
/// has run, `id` names that value, with the binding's mutability, and a
/// reference to `id` evaluates to it.
pub proof fn binding_then_reference(
    imm: bool,
    id: Seq<char>,
    e: SpecExpr,
    env: SpecEnv,
    t: Seq<(SpecRealTask, Real)>,
    cap: nat,
    cap2: nat,
)
    requires
        env.len() >= 1,
        eval_expr(e, env, t, cap) is Ok,
    ensures
        eval_stmt(SpecStmt::Binding(imm, id, e), env, t, cap).0 == Ok::<SpecVal, SpecHalt>(SpecVal::Unit),
        binding_of(eval_stmt(SpecStmt::Binding(imm, id, e), env, t, cap).1, id) == Ok::<(SpecVal, bool), SpecEvalError>(
            (eval_expr(e, env, t, cap)->Ok_0, imm),
        ),
        eval_inner(SpecInner::Ref(id), eval_stmt(SpecStmt::Binding(imm, id, e), env, t, cap).1, t, cap2)
            == eval_expr(e, env, t, cap),
{
    let v = eval_expr(e, env, t, cap)->Ok_0;
    let entry = SpecEntry::Value(v, imm);
    let env2 = env_store(env, id, entry);
    lemma_find_stored(env.last(), id, entry);
    assert(env2.last() == scope_store(env.last(), id, entry));
    assert(lookup(env2, id) == Some(entry));
}

/// An immutable binding keeps its value: reassigning a name that the
/// innermost scope binds immutably fails with immutable-reassignment and
/// leaves the environment as it was.
pub proof fn immutable_binding_refuses_reassignment(
    id: Seq<char>,
    e: SpecExpr,
    env: SpecEnv,
    t: Seq<(SpecRealTask, Real)>,
    cap: nat,
)
    requires
        env.len() >= 1,
        find(env.last(), id) matches Some(i) && env.last()[i].1 matches SpecEntry::Value(_, f) && f,
        eval_expr(e, env, t, cap) is Ok,
    ensures
        eval_reassign(id, e, env, t, cap) == (
            Err::<SpecVal, SpecHalt>(SpecHalt::Failed(SpecEvalError::ImmutableReassignment(id))),
            env,
        ),
{
    lemma_find_spec(env.last(), id, 0);
    assert(lookup(env, id) == Some(env.last()[find(env.last(), id)->Some_0].1));
}

/// A block whose last statement is a binding is worth unit whenever it
/// runs to its end.
pub proof fn binding_last_block_is_unit(
    ss: Seq<SpecStmt>,
    env: SpecEnv,
    t: Seq<(SpecRealTask, Real)>,
    cap: nat,
)
    requires
        ss.len() > 0,
        ss.last() is Binding,
    ensures
        eval_inner(SpecInner::Block(ss), env, t, cap) matches Ok(v) ==> v == SpecVal::Unit,
{
    lemma_last_binding_stmts(ss, env.push(SpecScope::empty()), t, cap);
}

pub proof fn lemma_last_binding_stmts(
    ss: Seq<SpecStmt>,
    env: SpecEnv,
    t: Seq<(SpecRealTask, Real)>,
    cap: nat,
)
    requires
        ss.len() > 0,
        ss.last() is Binding,
    ensures
        eval_stmts(ss, env, t, cap).0 matches Ok(v) ==> v == SpecVal::Unit,
    decreases ss.len(),
{
    let (r, env1) = eval_stmt(ss[0], env, t, cap);
    if ss.len() > 1 {
        let tail = ss.subrange(1, ss.len() as int);
        assert(tail.last() == ss.last());
        lemma_last_binding_stmts(tail, env1, t, cap);
        if r is Ok {
            assert(eval_stmts(ss, env, t, cap) == eval_stmts(tail, env1, t, cap));
        }
    } else {
        assert(ss[0] == ss.last());
        assert(eval_stmts(ss, env, t, cap) == (r, env1));
        if let SpecStmt::Binding(imm, id, e) = ss[0] {
            assert(r matches Ok(v) ==> v == SpecVal::Unit);
        }
    }
}

/// Negation flips a boolean and passes any other value through unchanged.
pub proof fn negation_flips_only_booleans(
    i: SpecInner,
    env: SpecEnv,
    t: Seq<(SpecRealTask, Real)>,
    cap: nat,
)
    ensures
        eval_inner(i, env, t, cap) matches Ok(SpecVal::Bool(b)) ==> eval_expr(
            SpecExpr { negate: true, inner: i },
            env,
            t,
            cap,
        ) == Ok::<SpecVal, SpecHalt>(SpecVal::Bool(!b)),
        eval_inner(i, env, t, cap) matches Ok(v) ==> (!(v is Bool) ==> eval_expr(
            SpecExpr { negate: true, inner: i },
            env,
            t,
            cap,
        ) == Ok::<SpecVal, SpecHalt>(v)),
        eval_inner(i, env, t, cap) is Err ==> eval_expr(SpecExpr { negate: true, inner: i }, env, t, cap)
            == eval_inner(i, env, t, cap),
{
}

/// A call whose argument count differs from the function's parameter count
/// fails with wrong-argument-count, before any argument is evaluated.
pub proof fn wrong_argument_count_fails(
    f: Seq<char>,
    args: Seq<SpecExpr>,
    env: SpecEnv,
    t: Seq<(SpecRealTask, Real)>,
    cap: nat,
)
    requires
        function_of(env, f) matches Ok((ps, _)) && ps.len() != args.len(),
    ensures
        eval_inner(SpecInner::Call(f, args), env, t, cap) == Err::<SpecVal, SpecHalt>(
            SpecHalt::Failed(SpecEvalError::InvalidArgumentLen),
        ),
{
}

} // verus!
