use spool::{
    Binding, BindingRef, Block, Env, EvalError, Expr, FuncCall, FuncDef, Halt, Identifier, InnerExpr,
    LitBool, LitReal, LitStr, Literal, MathExpr, Negate, Op, Parsed, Real, RealFact, RealTask,
    Parse, Reassignment, Stmt, Val,
};

fn compute(task: &RealTask) -> Real {
    let value: f32 = match task {
        RealTask::Decimal(text) => text.parse::<f32>().unwrap(),
        RealTask::Apply(op, a, b) => {
            let (x, y) = (f32::from_bits(a.bits), f32::from_bits(b.bits));
            match op {
                Op::Add => x + y,
                Op::Sub => x - y,
                Op::Mul => x * y,
                Op::Div => x / y,
            }
        }
    };
    Real { bits: value.to_bits() }
}

/// Evaluates until no real-number work is pending.
fn settle(mut step: impl FnMut(&Vec<RealFact>) -> Result<Val, Halt>) -> Result<Val, EvalError> {
    let mut facts: Vec<RealFact> = Vec::new();
    loop {
        match step(&facts) {
            Ok(v) => return Ok(v),
            Err(Halt::Failed(e)) => return Err(e),
            Err(Halt::Pending(task)) => {
                let result = compute(&task);
                facts.push(RealFact { task, result });
            }
        }
    }
}

fn run(line: &str, env: &mut Env) -> Result<Val, EvalError> {
    let (rest, parsed) = Parsed::parse(line).unwrap();
    assert_eq!(rest, "");
    settle(|facts| parsed.eval(env, facts))
}

fn reassign(line: &str, env: &mut Env) -> Result<Val, EvalError> {
    let (rest, r) = Reassignment::parse(line).unwrap();
    assert_eq!(rest, "");
    settle(|facts| r.eval(env, facts))
}

fn real_val(x: f32) -> Val {
    Val::Real(Real { bits: x.to_bits() })
}

fn id(s: &str) -> Identifier {
    Identifier::new(s.to_string())
}

fn lit(t: &str) -> Expr {
    Expr::simple(Literal::Real(LitReal(t.to_string())))
}

fn reference(s: &str) -> Expr {
    Expr::binding_ref(BindingRef { id: id(s) })
}

fn math(lhs: Expr, op: Op, rhs: Expr) -> Expr {
    Expr::math_expr(Box::new(MathExpr { lhs, op, rhs }))
}

#[test]
fn eval_literal() {
    let mut env = Env::new();
    let facts: Vec<RealFact> = Vec::new();
    assert_eq!(
        Literal::Str(LitStr("Hello, world!".to_string())).eval(&mut env, &facts),
        Ok(Val::Str("Hello, world!".into()))
    );
    assert_eq!(
        settle(|f| Literal::Real(LitReal("3.1414723".to_string())).eval(&mut env, f)),
        Ok(real_val(3.1414723))
    );
    assert_eq!(Literal::Bool(LitBool(true)).eval(&mut env, &facts), Ok(Val::Bool(true)))
}

#[test]
fn expr_eval_simple_expr() {
    let mut env = Env::new();
    assert_eq!(settle(|f| lit("5").eval(&mut env, f)), Ok(real_val(5.)))
}

#[test]
fn expr_eval_math_expr() {
    let mut env = Env::new();
    let m = MathExpr { lhs: lit("5"), op: Op::Mul, rhs: lit("6") };
    assert_eq!(settle(|f| m.eval(&mut env, f)), Ok(real_val(30.)))
}

#[test]
fn expr_eval_ref_expr() {
    let mut env = Env::new();
    let b = Binding::new(None, id("x"), math(lit("5"), Op::Mul, lit("5")));
    let _ = settle(|f| b.eval(&mut env, f));
    assert_eq!(settle(|f| reference("x").eval(&mut env, f)), Ok(real_val(25.)))
}

#[test]
fn eval_ref_math_expr() {
    let mut env = Env::new();
    let b = Binding::new(None, id("x"), math(lit("5"), Op::Mul, lit("5")));
    let _ = settle(|f| b.eval(&mut env, f));
    let e = math(reference("x"), Op::Add, lit("4"));
    assert_eq!(settle(|f| e.eval(&mut env, f)), Ok(real_val(29.)))
}

#[test]
fn eval_negate_expr() {
    let e = Expr { negate: Some(Negate), inner: InnerExpr::Simple(Literal::Bool(LitBool(true))) };
    assert_eq!(e.eval(&mut Env::new(), &Vec::new()), Ok(Val::Bool(false)))
}

#[test]
fn eval_fn() {
    let block = Block {
        stmts: vec![
            Stmt::Func(FuncDef {
                id: id("testfn"),
                params: vec![id("a"), id("b")],
                body: math(reference("a"), Op::Add, reference("b")),
            }),
            Stmt::Expr(Expr::func_call(FuncCall { callee: id("testfn"), params: vec![lit("5"), lit("5")] })),
        ],
    };
    let mut env = Env::new();
    assert_eq!(settle(|f| block.eval(&mut env, f)), Ok(real_val(10.)))
}

#[test]
fn eval_func_def() {
    let d = FuncDef { id: id("x"), params: vec![], body: lit("5") };
    assert_eq!(d.eval(&mut Env::new(), &Vec::new()), Ok(Val::Unit))
}

#[test]
fn binding_eval_binding() {
    let mut env = Env::new();
    let b = Binding::new(None, id("x"), lit("5"));
    assert_eq!(settle(|f| b.eval(&mut env, f)).unwrap(), Val::Unit)
}

#[test]
fn binding_eval_binding_ref() {
    let mut env = Env::new();
    env.store_binding(id("x"), real_val(5.), false);
    assert_eq!(BindingRef { id: id("x") }.eval(&mut env, &Vec::new()), Ok(real_val(5.)))
}

#[test]
fn var_eval_binding_ref() {
    let mut env = Env::new();
    env.store_binding(id("x"), real_val(12.), false);
    assert_eq!(BindingRef { id: id("x") }.eval(&mut env, &Vec::new()), Ok(real_val(12.)))
}

#[test]
fn eval_non_existent_ref() {
    assert_ne!(BindingRef { id: id("x") }.eval(&mut Env::new(), &Vec::new()), Ok(Val::Unit))
}

#[test]
fn block_eval_empty_block() {
    assert_eq!(Block { stmts: vec![] }.eval(&mut Env::new(), &Vec::new()), Ok(Val::Unit))
}

#[test]
fn block_eval_single_stmt_block() {
    let block = Block { stmts: vec![Stmt::Expr(math(lit("5"), Op::Mul, lit("4")))] };
    let mut env = Env::new();
    assert_eq!(settle(|f| block.eval(&mut env, f)), Ok(real_val(20.)))
}

#[test]
fn block_eval_multiple_stmt_block() {
    let block = Block {
        stmts: vec![
            Stmt::Binding(Binding::new(None, id("e"), lit("2.71828"))),
            Stmt::Expr(math(lit("5"), Op::Mul, lit("5"))),
        ],
    };
    let mut env = Env::new();
    assert_eq!(settle(|f| block.eval(&mut env, f)), Ok(real_val(25.)))
}

#[test]
fn block_eval_stmt_external_env() {
    let mut external_env = Env::new();
    external_env.store_binding(id("outer"), real_val(3.14159), false);
    let block = Block { stmts: vec![Stmt::Expr(reference("outer"))] };
    let mut env = Env::from_parent(&external_env);
    assert_eq!(settle(|f| block.eval(&mut env, f)), Ok(real_val(3.14159)))
}

#[test]
fn stmt_eval_binding_stmt() {
    let st = Stmt::Binding(Binding::new(None, id("x"), lit("0")));
    let mut env = Env::new();
    assert_eq!(settle(|f| st.eval(&mut env, f)), Ok(Val::Unit))
}

#[test]
fn eval_reassignment() {
    let mut env = Env::new();
    env.store_binding(id("x"), Val::Bool(true), false);
    let r = Reassignment { lhs: id("x"), rhs: Expr::simple(Literal::Bool(LitBool(false))) };
    let _ = r.eval(&mut env, &Vec::new());
    assert_eq!(env.get_stored_binding(&id("x")), Ok((Val::Bool(false), false)))
}

#[test]
fn binding_yields_unit_then_value() {
    let mut env = Env::new();
    assert_eq!(run("bind x = 5", &mut env), Ok(Val::Unit));
    assert_eq!(run("x", &mut env), Ok(real_val(5.)));
}

#[test]
fn immutable_binding_refuses_reassignment() {
    let mut env = Env::new();
    assert_eq!(run("bind final x = 5", &mut env), Ok(Val::Unit));
    assert_eq!(reassign("x = 6", &mut env), Err(EvalError::ImmutableReassignment(id("x"))));
    assert_eq!(run("x", &mut env), Ok(real_val(5.)));
}

#[test]
fn mutable_binding_takes_reassignment() {
    let mut env = Env::new();
    assert_eq!(run("bind x = 5", &mut env), Ok(Val::Unit));
    assert_eq!(reassign("x = 6", &mut env), Ok(Val::Unit));
    assert_eq!(run("x", &mut env), Ok(real_val(6.)));
}

#[test]
fn blocks_yield_their_tail_value() {
    let mut env = Env::new();
    assert_eq!(run("{ bind x = 5 x }", &mut env), Ok(real_val(5.)));
    assert_eq!(run("{}", &mut env), Ok(Val::Unit));
    assert_eq!(run("{ bind x = 5 }", &mut env), Ok(Val::Unit));
    assert_eq!(run("x", &mut env), Err(EvalError::IdentifierNotFound(id("x"))));
}

#[test]
fn negation_flips_booleans_only() {
    let mut env = Env::new();
    assert_eq!(run("!true", &mut env), Ok(Val::Bool(false)));
    assert_eq!(run("!false", &mut env), Ok(Val::Bool(true)));
    assert_eq!(run("!5", &mut env), Ok(real_val(5.)));
}

#[test]
fn functions_take_exactly_their_arguments() {
    let mut env = Env::new();
    assert_eq!(run("func add(a, b) => a + b", &mut env), Ok(Val::Unit));
    assert_eq!(run("add(2, 3)", &mut env), Ok(real_val(5.)));
    assert_eq!(run("add(2)", &mut env), Err(EvalError::InvalidArgumentLen));
}

#[test]
fn undeclared_reference_is_not_found() {
    let mut env = Env::new();
    assert_eq!(run("y", &mut env), Err(EvalError::IdentifierNotFound(id("y"))));
}

#[test]
fn function_bodies_do_not_see_the_defining_scope() {
    let mut env = Env::new();
    assert_eq!(run("bind z = 1", &mut env), Ok(Val::Unit));
    assert_eq!(run("func f(a) => z", &mut env), Ok(Val::Unit));
    assert_eq!(run("f(1)", &mut env), Err(EvalError::IdentifierNotFound(id("z"))));
}

#[test]
fn arithmetic_needs_reals() {
    let mut env = Env::new();
    assert_eq!(run("bind s = \"a\"", &mut env), Ok(Val::Unit));
    assert_eq!(
        run("s + 1", &mut env),
        Err(EvalError::InvalidType { expected: "a real number".to_string(), received: "String".to_string() })
    );
    assert_eq!(
        run("1 * true", &mut env),
        Err(EvalError::InvalidType { expected: "a real number".to_string(), received: "Boolean".to_string() })
    );
    assert_eq!(
        run("1 - {}", &mut env),
        Err(EvalError::InvalidType { expected: "a real number".to_string(), received: "()".to_string() })
    );
}

#[test]
fn division_by_zero_follows_floating_point() {
    let mut env = Env::new();
    assert_eq!(run("1 / 0", &mut env), Ok(real_val(f32::INFINITY)));
    assert_eq!(run("7 / 2", &mut env), Ok(real_val(3.5)));
    assert_eq!(run("2 - 3 - 4", &mut env), Ok(real_val(3.)));
}

#[test]
fn values_and_functions_share_one_namespace() {
    let mut env = Env::new();
    assert_eq!(run("func f(a) => a", &mut env), Ok(Val::Unit));
    assert_eq!(run("f", &mut env), Err(EvalError::InvalidStoredType));
    assert_eq!(run("bind v = 1", &mut env), Ok(Val::Unit));
    assert_eq!(run("v(1)", &mut env), Err(EvalError::InvalidStoredType));
    assert_eq!(run("bind f = 2", &mut env), Ok(Val::Unit));
    assert_eq!(run("f", &mut env), Ok(real_val(2.)));
    assert_eq!(run("func v(a) => a", &mut env), Ok(Val::Unit));
    assert_eq!(run("v(\"s\")", &mut env), Ok(Val::Str("s".to_string())));
    assert_eq!(reassign("v = 3", &mut env), Err(EvalError::InvalidStoredType));
}

#[test]
fn reassignment_reaches_only_the_innermost_scope() {
    let mut outer = Env::new();
    outer.store_binding(id("x"), real_val(1.), false);
    let mut inner = Env::from_parent(&outer);
    assert_eq!(reassign("x = 2", &mut inner), Err(EvalError::IdentifierNotFound(id("x"))));
    assert_eq!(reassign("y = 2", &mut inner), Err(EvalError::IdentifierNotFound(id("y"))));
    assert_eq!(run("x", &mut inner), Ok(real_val(1.)));
}

#[test]
fn env_reassign_reports_each_error() {
    let mut env = Env::new();
    env.store_func(id("g"), vec![], lit("1"));
    env.store_binding(id("c"), real_val(1.), true);
    assert_eq!(env.reassign_binding(id("g"), Val::Unit), Err(EvalError::InvalidStoredType));
    assert_eq!(env.reassign_binding(id("c"), Val::Unit), Err(EvalError::ImmutableReassignment(id("c"))));
    assert_eq!(env.reassign_binding(id("n"), Val::Unit), Err(EvalError::IdentifierNotFound(id("n"))));
    assert_eq!(env.get_stored_binding(&id("c")), Ok((real_val(1.), true)));
    let f = env.get_stored_func(&id("g")).unwrap();
    assert_eq!(f.params.len(), 0);
    assert_eq!(f.body, lit("1"));
    assert_eq!(env.get_stored_func(&id("c")).err(), Some(EvalError::InvalidStoredType));
}

#[test]
fn pending_work_leaves_the_environment_alone() {
    let mut env = Env::new();
    let (_, parsed) = Parsed::parse("bind x = 2 * 3").unwrap();
    let first = parsed.eval(&mut env, &Vec::new());
    assert_eq!(first, Err(Halt::Pending(RealTask::Decimal("2".to_string()))));
    assert_eq!(run("x", &mut env), Err(EvalError::IdentifierNotFound(id("x"))));
    let facts = vec![
        RealFact { task: RealTask::Decimal("2".to_string()), result: Real { bits: 2f32.to_bits() } },
        RealFact { task: RealTask::Decimal("3".to_string()), result: Real { bits: 3f32.to_bits() } },
    ];
    let two = Real { bits: 2f32.to_bits() };
    let three = Real { bits: 3f32.to_bits() };
    assert_eq!(parsed.eval(&mut env, &facts), Err(Halt::Pending(RealTask::Apply(Op::Mul, two, three))));
    assert_eq!(settle(|f| parsed.eval(&mut env, f)), Ok(Val::Unit));
    assert_eq!(run("x", &mut env), Ok(real_val(6.)));
}

#[test]
fn repeated_parameter_keeps_the_last_argument() {
    let mut env = Env::new();
    assert_eq!(run("func pick(a, a) => a", &mut env), Ok(Val::Unit));
    assert_eq!(run("pick(1, 2)", &mut env), Ok(real_val(2.)));
}

#[test]
fn value_type_labels() {
    assert_eq!(Val::Str("a".to_string()).get_type(), "String");
    assert_eq!(real_val(1.).get_type(), "Real number");
    assert_eq!(Val::Bool(true).get_type(), "Boolean");
    assert_eq!(Val::Unit.get_type(), "()");
}

#[test]
fn expr_constructors_and_negate() {
    let mut e = Expr::simple(Literal::Bool(LitBool(true)));
    e.negate();
    assert_eq!(e, Expr { negate: Some(Negate), inner: InnerExpr::Simple(Literal::Bool(LitBool(true))) });
    assert_eq!(Expr::block(Block { stmts: vec![] }).eval(&mut Env::new(), &Vec::new()), Ok(Val::Unit));
}
