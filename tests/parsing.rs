use spool::{
    Binding, BindingRef, Block, Expr, FuncCall, FuncDef, Identifier, Immutable, InnerExpr, LitBool,
    LitReal, LitStr, Literal, MathExpr, Negate, Op, Parse, ParseError, Parsed, Reassignment, Stmt,
};

fn id(s: &str) -> Identifier {
    Identifier::new(s.to_string())
}

fn real_lit(t: &str) -> Expr {
    Expr::simple(Literal::Real(LitReal(t.to_string())))
}

fn string(t: &str) -> Expr {
    Expr::simple(Literal::Str(LitStr(t.to_string())))
}

fn reference(s: &str) -> Expr {
    Expr::binding_ref(BindingRef { id: id(s) })
}

fn math(lhs: Expr, op: Op, rhs: Expr) -> Expr {
    Expr::math_expr(Box::new(MathExpr { lhs, op, rhs }))
}

#[test]
fn lit_parse_string() {
    assert_eq!(
        Literal::parse(r#""Hello, world""#),
        Ok(("".into(), Literal::Str(LitStr("Hello, world".to_string()))))
    )
}

#[test]
fn lit_parse_float() {
    assert_eq!(
        Literal::parse("3.1414723"),
        Ok(("".into(), Literal::Real(LitReal("3.1414723".to_string()))))
    )
}

#[test]
fn lit_parse_op() {
    assert_eq!(Op::parse("+").unwrap().1, Op::Add)
}

#[test]
fn tests_parse_op() {
    assert_eq!(Op::parse("+").unwrap(), ("".into(), Op::Add));
    assert_eq!(Op::parse("-").unwrap(), ("".into(), Op::Sub));
    assert_eq!(Op::parse("*").unwrap(), ("".into(), Op::Mul));
    assert_eq!(Op::parse("/").unwrap(), ("".into(), Op::Div));
}

#[test]
fn parse_bool() {
    assert_eq!(Literal::parse("true"), Ok(("".into(), Literal::Bool(LitBool(true)))))
}

#[test]
fn expr_parse_simple_expr() {
    assert_eq!(Expr::parse("\"Hello, world\""), Ok(("".into(), string("Hello, world"))))
}

#[test]
fn expr_parse_math_expr() {
    assert_eq!(Expr::parse("5 * 5"), Ok(("".into(), math(real_lit("5"), Op::Mul, real_lit("5")))))
}

#[test]
fn parse_expr() {
    assert_eq!(
        Expr::parse("123 + 456").unwrap(),
        ("".into(), math(real_lit("123"), Op::Add, real_lit("456")))
    )
}

#[test]
fn parse_fn_call() {
    assert_eq!(
        Expr::parse("test(hello, world)"),
        Ok((
            "".into(),
            Expr::func_call(FuncCall {
                callee: id("test"),
                params: vec![reference("hello"), reference("world")]
            })
        ))
    )
}

#[test]
fn parse_negated_bool() {
    assert_eq!(
        Expr::parse("!true"),
        Ok((
            "".into(),
            Expr { negate: Some(Negate), inner: InnerExpr::Simple(Literal::Bool(LitBool(true))) }
        ))
    )
}

#[test]
fn parse_fn_call_no_params() {
    assert_eq!(FuncCall::parse("test()"), Ok(("".into(), FuncCall { callee: id("test"), params: vec![] })))
}

#[test]
fn parse_fn_call_one_param() {
    assert_eq!(
        FuncCall::parse("test(5)"),
        Ok(("".into(), FuncCall { callee: id("test"), params: vec![real_lit("5")] }))
    )
}

#[test]
fn parse_fn_call_multiple_params() {
    assert_eq!(
        FuncCall::parse("test(hello, world)"),
        Ok((
            "".into(),
            FuncCall { callee: id("test"), params: vec![reference("hello"), reference("world")] }
        ))
    )
}

#[test]
fn parse() {
    assert_eq!(
        FuncDef::parse("func fn(x) => x"),
        Ok(("".into(), FuncDef { id: id("fn"), params: vec![id("x")], body: reference("x") }))
    )
}

#[test]
fn parse_func() {
    assert_eq!(
        Stmt::parse("func fn(x) => x"),
        Ok(("".into(), Stmt::Func(FuncDef { id: id("fn"), params: vec![id("x")], body: reference("x") })))
    )
}

#[test]
fn binding_parse_binding() {
    assert_eq!(
        Binding::parse("bind x = \"Hello, world\""),
        Ok(("".into(), Binding::new(None, id("x"), string("Hello, world"))))
    )
}

#[test]
fn parse_immutable_binding() {
    assert_eq!(
        Binding::parse("bind final x = 5"),
        Ok(("".into(), Binding { immutable: Some(Immutable), ident: id("x"), expr: real_lit("5") }))
    )
}

#[test]
fn var_parse_binding() {
    assert_eq!(
        Binding::parse("bind x = 123 + 456").unwrap(),
        ("".into(), Binding::new(None, id("x"), math(real_lit("123"), Op::Add, real_lit("456"))))
    )
}

#[test]
fn var_parse_simple_binding() {
    assert_eq!(
        Binding::parse("bind x = 123").unwrap(),
        ("".into(), Binding::new(None, id("x"), real_lit("123")))
    )
}

#[test]
fn parse_binding_ref() {
    assert_eq!(BindingRef { id: id("xyz") }, BindingRef::parse("xyz").unwrap().1)
}

#[test]
fn block_parse_empty_block() {
    assert_eq!(Block::parse("{}").unwrap().1, Block { stmts: vec![] })
}

#[test]
fn block_parse_single_stmt_block() {
    assert_eq!(
        Block::parse("{ bind x = 5 }"),
        Ok(("".into(), Block { stmts: vec![Stmt::Binding(Binding::new(None, id("x"), real_lit("5")))] }))
    )
}

#[test]
fn block_parse_multiple_stmt_block() {
    assert_eq!(
        Block::parse("{ bind x = 5 bind y = x y }"),
        Ok((
            "".into(),
            Block {
                stmts: vec![
                    Stmt::Binding(Binding::new(None, id("x"), real_lit("5"))),
                    Stmt::Binding(Binding::new(None, id("y"), reference("x"))),
                    Stmt::Expr(reference("y")),
                ]
            }
        ))
    )
}

#[test]
fn parse_reassignment() {
    assert_eq!(
        Reassignment::parse("x = 5 + y"),
        Ok(("".into(), Reassignment { lhs: id("x"), rhs: math(real_lit("5"), Op::Add, reference("y")) }))
    )
}

#[test]
fn chained_operators_group_to_the_right() {
    assert_eq!(
        Expr::parse("1 - 2 - 3"),
        Ok(("".into(), math(real_lit("1"), Op::Sub, math(real_lit("2"), Op::Sub, real_lit("3")))))
    )
}

#[test]
fn boolean_token_has_no_boundary_check() {
    assert_eq!(Literal::parse("truex"), Ok(("x".into(), Literal::Bool(LitBool(true)))));
    assert_eq!(LitBool::parse("false"), Ok(("".into(), LitBool(false))));
    assert_eq!(LitBool::parse("  falsey"), Ok(("y".into(), LitBool(false))));
    assert_eq!(
        LitBool::parse("fals"),
        Err(ParseError::InvalidSequence { expected: "true|false".to_string(), received: "fals".to_string() })
    );
    assert_eq!(
        LitBool::parse(" tr"),
        Err(ParseError::SequenceNotFound { expected: "boolean sequence".to_string(), received: "tr".to_string() })
    );
    assert_eq!(LitBool::parse("abc€"), Err(ParseError::InvalidSequence { expected: "true|false".to_string(), received: "abc€".to_string() }));
    assert_eq!(Expr::parse("false"), Ok(("".into(), Expr::simple(Literal::Bool(LitBool(false))))));
}

#[test]
fn malformed_numbers_are_rejected() {
    assert_eq!(LitReal::parse("1.2.3"), Ok((".3".into(), LitReal("1.2".to_string()))));
    assert_eq!(LitReal::parse("."), Err(ParseError::MalformedNumber { received: ".".to_string() }));
    assert_eq!(LitReal::parse("x"), Err(ParseError::MalformedNumber { received: "".to_string() }));
    assert_eq!(LitReal::parse(" 5."), Ok(("".into(), LitReal("5.".to_string()))));
    assert_eq!(LitReal::parse(".5x"), Ok(("x".into(), LitReal(".5".to_string()))));
}

#[test]
fn keywords_and_digits_are_no_identifiers() {
    assert_eq!(
        Identifier::parse("bind"),
        Err(ParseError::SequenceNotFound { expected: "valid identifier".to_string(), received: "bind".to_string() })
    );
    assert_eq!(Identifier::parse("  final2 z"), Ok((" z".into(), id("final2"))));
    assert_eq!(
        Identifier::parse("2x"),
        Err(ParseError::InvalidSequence {
            expected: "an identifier not beginning with a digit".to_string(),
            received: "2x".to_string()
        })
    );
}

#[test]
fn trailing_comma_in_arguments_is_accepted() {
    assert_eq!(
        FuncCall::parse("f(1,)"),
        Ok(("".into(), FuncCall { callee: id("f"), params: vec![real_lit("1")] }))
    );
}

#[test]
fn malformed_statement_truncates_block() {
    assert_eq!(
        Block::parse("{ bind x = 5 ) }"),
        Err(ParseError::SequenceNotFound { expected: "}".to_string(), received: ") }".to_string() })
    );
}

#[test]
fn parsed_keeps_leftover_text() {
    let (rest, parsed) = Parsed::parse("bind x = 1 2").unwrap();
    assert_eq!(rest, " 2");
    assert_eq!(parsed, Parsed(Stmt::Binding(Binding::new(None, id("x"), real_lit("1")))));
}

#[test]
fn parsing_is_deterministic() {
    for text in ["bind final x = 5", "{ bind x = 5 x }", "f(1, 2", "!true", "1 - 2 - 3"] {
        assert_eq!(Parsed::parse(text), Parsed::parse(text));
    }
}

#[test]
fn negate_reports_what_stood_instead() {
    assert_eq!(Negate::parse("  !x"), ("x".to_string(), Ok(Negate)));
    assert_eq!(
        Negate::parse(" x"),
        ("x".to_string(), Err(ParseError::InvalidSequence { expected: "!".to_string(), received: "x".to_string() }))
    );
    assert_eq!(
        Negate::parse("  "),
        ("".to_string(), Err(ParseError::SequenceNotFound { expected: "!".to_string(), received: "".to_string() }))
    );
}
