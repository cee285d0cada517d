//! The parsers, each proved to follow its rule in `grammar`.
use vstd::prelude::*;

use crate::error::{ParseError, SpecParseError};
use crate::grammar::{
    args_spec, binding_spec, block_spec, call_spec, expr_spec, funcdef_spec, identifier_spec,
    immutable_spec, inner_spec, is_decimal, is_keyword, lit_bool_spec, lit_real_spec,
    lit_str_spec, literal_spec, math_spec, negate_error, negate_spec, op_parse_spec, params_spec,
    reassignment_spec, stmt_spec, stmts_spec,
};
use crate::scan::{is_digit, rest, skip_ws, Source};
use crate::syntax::{
    view_exprs, view_idents, view_stmts, Binding, BindingRef, Block, Expr, FuncCall, FuncDef,
    Identifier, Immutable, InnerExpr, LitBool, LitReal, LitStr, Literal, MathExpr, Negate, Op,
    Parsed, Reassignment, SpecExpr, SpecLiteral, SpecStmt, Stmt,
};

verus! {

pub type ParseOutput<S> = Result<(String, S), ParseError>;

/// Reading a value of a syntax type from the start of a text.
pub trait Parse: Sized + View {
    /// The grammar rule for the type, at a position of the input.
    spec fn rule(s: Seq<char>, pos: int) -> Result<(int, Self::V), SpecParseError>;

    /// Parses one value at the start of `s`, handing back the text after it.
    fn parse(s: &str) -> (r: ParseOutput<Self>)
        ensures
            parsed_text(s@, r, Self::rule(s@, 0)),
    ;
}

/// A parser's result at a position agrees with its rule.
pub open spec fn parsed_as<T: View>(
    r: Result<(usize, T), ParseError>,
    m: Result<(int, T::V), SpecParseError>,
) -> bool {
    match (r, m) {
        (Ok((p, t)), Ok((q, u))) => p == q && t@ == u,
        (Err(e), Err(f)) => e@ == f,
        _ => false,
    }
}

/// A parser's result on text agrees with its rule at the start of `s`: on
/// success it hands back what follows the parsed part.
pub open spec fn parsed_text<T: View>(
    s: Seq<char>,
    r: Result<(String, T), ParseError>,
    m: Result<(int, T::V), SpecParseError>,
) -> bool {
    match (r, m) {
        (Ok((t, x)), Ok((q, u))) => t@ == rest(s, q) && x@ == u,
        (Err(e), Err(f)) => e@ == f,
        _ => false,
    }
}

impl<'a> Source<'a> {
    /// Whether the characters from `p` to `e` are exactly `t`.
    pub fn word_is(&self, p: usize, e: usize, t: &str) -> (r: bool)
        requires
            self.wf(),
            p <= e <= self.len,
        ensures
            r == (self.chars().subrange(p as int, e as int) == t@),
    {
        let n = t.unicode_len();
        if e - p != n {
            assert(self.chars().subrange(p as int, e as int).len() != t@.len());
            return false;
        }
        self.has_at(p, t)
    }

    pub fn is_keyword(&self, p: usize, e: usize) -> (r: bool)
        requires
            self.wf(),
            p <= e <= self.len,
        ensures
            r == is_keyword(self.chars().subrange(p as int, e as int)),
    {
        self.word_is(p, e, "func") || self.word_is(p, e, "bind") || self.word_is(p, e, "final")
    }

    /// Whether the characters from `p` to `e` are decimal text.
    pub fn is_decimal(&self, p: usize, e: usize) -> (r: bool)
        requires
            self.wf(),
            p <= e <= self.len,
        ensures
            r == is_decimal(self.chars().subrange(p as int, e as int)),
    {
        let ghost t = self.chars().subrange(p as int, e as int);
        let mut i = p;
        while i < e
            invariant
                self.wf(),
                p <= i <= e <= self.len,
                t == self.chars().subrange(p as int, e as int),
                forall|k: int| 0 <= k < i - p ==> !is_digit(#[trigger] t[k]),
            decreases e - i,
        {
            let c = self.at(i);
            assert(t[i - p] == c);
            if '0' <= c && c <= '9' {
                return true;
            }
            i = i + 1;
        }
        false
    }
}

impl Identifier {
    pub fn parse_at(src: &Source, pos: usize) -> (r: Result<(usize, Identifier), ParseError>)
        requires
            src.wf(),
            pos <= src.len,
        ensures
            parsed_as(r, identifier_spec(src.chars(), pos as int)),
            r matches Ok((q, _)) ==> pos < q <= src.len,
    {
        let p = src.skip_ws(pos);
        let e = src.ident(p)?;
        if e == p || src.is_keyword(p, e) {
            return Err(
                ParseError::SequenceNotFound {
                    expected: "valid identifier".to_owned(),
                    received: src.slice(p, e),
                },
            );
        }
        Ok((e, Identifier(src.slice(p, e))))
    }
}

impl LitStr {
    pub fn parse_at(src: &Source, pos: usize) -> (r: Result<(usize, LitStr), ParseError>)
        requires
            src.wf(),
            pos <= src.len,
        ensures
            parsed_as(r, lit_str_spec(src.chars(), pos as int)),
            r matches Ok((q, _)) ==> pos < q <= src.len,
    {
        let p = src.skip_ws(pos);
        let (a, b, q) = src.string(p)?;
        Ok((q, LitStr(src.slice(a, b))))
    }
}

impl LitReal {
    pub fn parse_at(src: &Source, pos: usize) -> (r: Result<(usize, LitReal), ParseError>)
        requires
            src.wf(),
            pos <= src.len,
        ensures
            parsed_as(r, lit_real_spec(src.chars(), pos as int)),
            r matches Ok((q, _)) ==> pos < q <= src.len,
    {
        let p = src.skip_ws(pos);
        let e = src.float_end(p);
        if src.is_decimal(p, e) {
            Ok((e, LitReal(src.slice(p, e))))
        } else {
            Err(ParseError::MalformedNumber { received: src.slice(p, e) })
        }
    }
}

impl LitBool {
    pub fn parse_at(src: &Source, pos: usize) -> (r: Result<(usize, LitBool), ParseError>)
        requires
            src.wf(),
            pos <= src.len,
        ensures
            parsed_as(r, lit_bool_spec(src.chars(), pos as int)),
            r matches Ok((q, _)) ==> pos < q <= src.len,
    {
        let p = src.skip_ws(pos);
        proof {
            reveal_strlit("true");
            reveal_strlit("false");
        }
        if src.has_at(p, "true") {
            return Ok((p + 4, LitBool(true)));
        }
        if src.has_at(p, "false") {
            return Ok((p + 5, LitBool(false)));
        }
        if src.len - p < 4 {
            return Err(
                ParseError::SequenceNotFound {
                    expected: "boolean sequence".to_owned(),
                    received: src.rest(p),
                },
            );
        }
        Err(
            ParseError::InvalidSequence {
                expected: "true|false".to_owned(),
                received: src.slice(p, p + 4),
            },
        )
    }
}

impl Literal {
    pub fn parse_at(src: &Source, pos: usize) -> (r: Result<(usize, Literal), ParseError>)
        requires
            src.wf(),
            pos <= src.len,
        ensures
            parsed_as(r, literal_spec(src.chars(), pos as int)),
            r matches Ok((q, _)) ==> pos < q <= src.len,
    {
        match LitReal::parse_at(src, pos) {
            Ok((q, t)) => Ok((q, Literal::Real(t))),
            Err(_) => match LitStr::parse_at(src, pos) {
                Ok((q, t)) => Ok((q, Literal::Str(t))),
                Err(_) => match LitBool::parse_at(src, pos) {
                    Ok((q, b)) => Ok((q, Literal::Bool(b))),
                    Err(e) => Err(e),
                },
            },
        }
    }
}

impl Op {
    pub fn parse_at(src: &Source, pos: usize) -> (r: Result<(usize, Op), ParseError>)
        requires
            src.wf(),
            pos <= src.len,
        ensures
            parsed_as(r, op_parse_spec(src.chars(), pos as int)),
            r matches Ok((q, _)) ==> pos < q <= src.len,
    {
        let p = src.skip_ws(pos);
        let q = src.op(p)?;
        let c = src.at(p);
        let o = if c == '+' {
            Op::Add
        } else if c == '-' {
            Op::Sub
        } else if c == '*' {
            Op::Mul
        } else {
            Op::Div
        };
        Ok((q, o))
    }
}

impl Negate {
    /// An optional `!` at `pos`: the position after it (or after the
    /// whitespace before what stands there instead), and the `!` or why it is
    /// missing.
    pub fn parse_at(src: &Source, pos: usize) -> (r: (usize, Result<Negate, ParseError>))
        requires
            src.wf(),
            pos <= src.len,
        ensures
            r.0 == negate_spec(src.chars(), pos as int).0,
            r.1 is Ok == negate_spec(src.chars(), pos as int).1,
            r.1 matches Err(e) ==> e@ == negate_error(src.chars(), r.0 as int),
            pos <= r.0 <= src.len,
    {
        let p = src.skip_ws(pos);
        if p < src.len {
            if src.at(p) == '!' {
                (p + 1, Ok(Negate))
            } else {
                proof {
                    assert(src.chars().subrange(p as int, p + 1) =~= seq![src.chars()[p as int]]);
                }
                (p, Err(ParseError::InvalidSequence { expected: "!".to_owned(), received: src.slice(p, p + 1) }))
            }
        } else {
            (p, Err(ParseError::SequenceNotFound { expected: "!".to_owned(), received: "".to_owned() }))
        }
    }

    /// Reads an optional `!` at the start of `s`: the text after it (or after
    /// the leading whitespace), and the `!` or why it is missing.
    pub fn parse(s: &str) -> (r: (String, Result<Negate, ParseError>))
        ensures
            r.0@ == rest(s@, negate_spec(s@, 0).0),
            r.1 is Ok == negate_spec(s@, 0).1,
            r.1 matches Err(e) ==> e@ == negate_error(s@, negate_spec(s@, 0).0),
    {
        let src = Source::new(s);
        let (p, n) = Negate::parse_at(&src, 0);
        (src.rest(p), n)
    }
}

impl Immutable {
    /// An optional `final` at `pos`.
    pub fn parse_at(src: &Source, pos: usize) -> (r: (usize, Option<Immutable>))
        requires
            src.wf(),
            pos <= src.len,
        ensures
            r.0 == immutable_spec(src.chars(), pos as int).0,
            (r.1 is Some) == immutable_spec(src.chars(), pos as int).1,
            pos <= r.0 <= src.len,
    {
        match src.tag(pos, "final") {
            Ok(q) => (q, Some(Immutable)),
            Err(_) => (pos, None),
        }
    }
}

impl Expr {
    pub fn parse_at(src: &Source, pos: usize) -> (r: Result<(usize, Expr), ParseError>)
        requires
            src.wf(),
            pos <= src.len,
        ensures
            parsed_as(r, expr_spec(src.chars(), pos as int)),
            r matches Ok((q, _)) ==> pos < q <= src.len,
        decreases src.len - pos, 3int,
    {
        let (p, neg) = Negate::parse_at(src, pos);
        let (q, inner) = InnerExpr::parse_at(src, p)?;
        Ok((q, Expr { negate: neg.ok(), inner }))
    }
}

impl InnerExpr {
    pub fn parse_at(src: &Source, pos: usize) -> (r: Result<(usize, InnerExpr), ParseError>)
        requires
            src.wf(),
            pos <= src.len,
        ensures
            parsed_as(r, inner_spec(src.chars(), pos as int)),
            r matches Ok((q, _)) ==> pos < q <= src.len,
        decreases src.len - pos, 2int,
    {
        match FuncCall::parse_at(src, pos) {
            Ok((q, c)) => Ok((q, InnerExpr::FuncCall(c))),
            Err(_) => match MathExpr::parse_at(src, pos) {
                Ok((q, m)) => Ok((q, InnerExpr::MathExpr(Box::new(m)))),
                Err(_) => match Literal::parse_at(src, pos) {
                    Ok((q, l)) => Ok((q, InnerExpr::Simple(l))),
                    Err(_) => match Identifier::parse_at(src, pos) {
                        Ok((q, id)) => Ok((q, InnerExpr::BindingRef(BindingRef { id }))),
                        Err(_) => match Block::parse_at(src, pos) {
                            Ok((q, b)) => Ok((q, InnerExpr::Block(b))),
                            Err(e) => Err(e),
                        },
                    },
                },
            },
        }
    }
}

impl FuncCall {
    pub fn parse_at(src: &Source, pos: usize) -> (r: Result<(usize, FuncCall), ParseError>)
        requires
            src.wf(),
            pos <= src.len,
        ensures
            parsed_as(r, call_spec(src.chars(), pos as int)),
            r matches Ok((q, _)) ==> pos < q <= src.len,
        decreases src.len - pos, 1int,
    {
        let ghost s = src.chars();
        let (at1, callee) = Identifier::parse_at(src, pos)?;
        let at2 = src.tag(at1, "(")?;
        proof {
            reveal_strlit("(");
        }
        let mut params: Vec<Expr> = Vec::new();
        let mut p = at2;
        loop
            invariant
                src.wf(),
                s == src.chars(),
                pos < at2 <= p <= src.len,
                args_spec(s, at2 as int) == (
                    args_spec(s, p as int).0,
                    view_exprs(params@) + args_spec(s, p as int).1,
                ),
            ensures
                pos < p <= src.len,
                args_spec(s, p as int) == (p as int, Seq::<SpecExpr>::empty()),
            decreases src.len - p,
        {
            match Expr::parse_at(src, p) {
                Err(_) => {
                    break ;
                },
                Ok((q, e)) => {
                    let q2 = match src.tag(q, ",") {
                        Ok(t) => t,
                        Err(_) => q,
                    };
                    proof {
                        let v0 = view_exprs(params@);
                        let tail = args_spec(s, q2 as int).1;
                        assert(params@.push(e).drop_last() =~= params@);
                        assert(view_exprs(params@.push(e)) == v0.push(e@));
                        assert(v0 + (seq![e@] + tail) =~= v0.push(e@) + tail);
                    }
                    params.push(e);
                    p = q2;
                },
            }
        }
        proof {
            assert(view_exprs(params@) + Seq::<SpecExpr>::empty() =~= view_exprs(params@));
        }
        let at4 = src.tag(p, ")")?;
        Ok((at4, FuncCall { callee, params }))
    }
}

impl MathExpr {
    pub fn parse_at(src: &Source, pos: usize) -> (r: Result<(usize, MathExpr), ParseError>)
        requires
            src.wf(),
            pos <= src.len,
        ensures
            parsed_as(r, math_spec(src.chars(), pos as int)),
            r matches Ok((q, _)) ==> pos < q <= src.len,
        decreases src.len - pos, 1int,
    {
        let (at1, lhs) = match Identifier::parse_at(src, pos) {
            Ok((q, id)) => (q, Expr { negate: None, inner: InnerExpr::BindingRef(BindingRef { id }) }),
            Err(_) => match LitReal::parse_at(src, pos) {
                Ok((q, t)) => (q, Expr { negate: None, inner: InnerExpr::Simple(Literal::Real(t)) }),
                Err(e) => {
                    return Err(e);
                },
            },
        };
        let (at2, op) = Op::parse_at(src, at1)?;
        let (at3, rhs) = Expr::parse_at(src, at2)?;
        Ok((at3, MathExpr { lhs, op, rhs }))
    }
}

impl Block {
    pub fn parse_at(src: &Source, pos: usize) -> (r: Result<(usize, Block), ParseError>)
        requires
            src.wf(),
            pos <= src.len,
        ensures
            parsed_as(r, block_spec(src.chars(), pos as int)),
            r matches Ok((q, _)) ==> pos < q <= src.len,
        decreases src.len - pos, 1int,
    {
        let ghost s = src.chars();
        let at0 = src.skip_ws(pos);
        let at1 = src.tag(at0, "{")?;
        proof {
            reveal_strlit("{");
        }
        let mut stmts: Vec<Stmt> = Vec::new();
        let mut p = at1;
        loop
            invariant
                src.wf(),
                s == src.chars(),
                pos < at1 <= p <= src.len,
                stmts_spec(s, at1 as int) == (
                    stmts_spec(s, p as int).0,
                    view_stmts(stmts@) + stmts_spec(s, p as int).1,
                ),
            ensures
                pos < p <= src.len,
                stmts_spec(s, p as int) == (p as int, Seq::<SpecStmt>::empty()),
            decreases src.len - p,
        {
            match Stmt::parse_at(src, p) {
                Err(_) => {
                    break ;
                },
                Ok((q, st)) => {
                    let q2 = src.skip_ws(q);
                    proof {
                        let v0 = view_stmts(stmts@);
                        let tail = stmts_spec(s, q2 as int).1;
                        assert(stmts@.push(st).drop_last() =~= stmts@);
                        assert(view_stmts(stmts@.push(st)) == v0.push(st@));
                        assert(v0 + (seq![st@] + tail) =~= v0.push(st@) + tail);
                    }
                    stmts.push(st);
                    p = q2;
                },
            }
        }
        proof {
            assert(view_stmts(stmts@) + Seq::<SpecStmt>::empty() =~= view_stmts(stmts@));
        }
        let at3 = src.tag(p, "}")?;
        Ok((at3, Block { stmts }))
    }
}

impl Stmt {
    pub fn parse_at(src: &Source, pos: usize) -> (r: Result<(usize, Stmt), ParseError>)
        requires
            src.wf(),
            pos <= src.len,
        ensures
            parsed_as(r, stmt_spec(src.chars(), pos as int)),
            r matches Ok((q, _)) ==> pos < q <= src.len,
        decreases src.len - pos, 4int,
    {
        match Binding::parse_at(src, pos) {
            Ok((q, b)) => Ok((q, Stmt::Binding(b))),
            Err(_) => match Expr::parse_at(src, pos) {
                Ok((q, e)) => Ok((q, Stmt::Expr(e))),
                Err(_) => match FuncDef::parse_at(src, pos) {
                    Ok((q, f)) => Ok((q, Stmt::Func(f))),
                    Err(e) => Err(e),
                },
            },
        }
    }
}

impl Binding {
    pub fn parse_at(src: &Source, pos: usize) -> (r: Result<(usize, Binding), ParseError>)
        requires
            src.wf(),
            pos <= src.len,
        ensures
            parsed_as(r, binding_spec(src.chars(), pos as int)),
            r matches Ok((q, _)) ==> pos < q <= src.len,
        decreases src.len - pos, 1int,
    {
        let at0 = src.skip_ws(pos);
        let at1 = src.tag(at0, "bind")?;
        proof {
            reveal_strlit("bind");
        }
        let at2 = src.skip_ws(at1);
        let (at3, immutable) = Immutable::parse_at(src, at2);
        let (at4, ident) = Identifier::parse_at(src, at3)?;
        let at5 = src.skip_ws(at4);
        let at6 = src.tag(at5, "=")?;
        let (at7, expr) = Expr::parse_at(src, at6)?;
        Ok((at7, Binding { immutable, ident, expr }))
    }
}

impl FuncDef {
    pub fn parse_at(src: &Source, pos: usize) -> (r: Result<(usize, FuncDef), ParseError>)
        requires
            src.wf(),
            pos <= src.len,
        ensures
            parsed_as(r, funcdef_spec(src.chars(), pos as int)),
            r matches Ok((q, _)) ==> pos < q <= src.len,
        decreases src.len - pos, 1int,
    {
        let ghost s = src.chars();
        let at0 = src.skip_ws(pos);
        let at1 = src.tag(at0, "func")?;
        proof {
            reveal_strlit("func");
        }
        let at2 = src.skip_ws(at1);
        let (at3, id) = Identifier::parse_at(src, at2)?;
        let at4 = src.tag(at3, "(")?;
        let mut params: Vec<Identifier> = Vec::new();
        let mut p = at4;
        loop
            invariant
                src.wf(),
                s == src.chars(),
                pos < at4 <= p <= src.len,
                params_spec(s, at4 as int) == (
                    params_spec(s, p as int).0,
                    view_idents(params@) + params_spec(s, p as int).1,
                ),
            ensures
                pos < p <= src.len,
                params_spec(s, p as int) == (p as int, Seq::<Seq<char>>::empty()),
            decreases src.len - p,
        {
            match Identifier::parse_at(src, p) {
                Err(_) => {
                    break ;
                },
                Ok((q, x)) => {
                    let q2 = match src.tag(q, ",") {
                        Ok(t) => t,
                        Err(_) => q,
                    };
                    proof {
                        let v0 = view_idents(params@);
                        let tail = params_spec(s, q2 as int).1;
                        assert(view_idents(params@.push(x)) =~= v0.push(x@));
                        assert(v0 + (seq![x@] + tail) =~= v0.push(x@) + tail);
                    }
                    params.push(x);
                    p = q2;
                },
            }
        }
        proof {
            assert(view_idents(params@) + Seq::<Seq<char>>::empty() =~= view_idents(params@));
        }
        let at6 = src.tag(p, ")")?;
        let at7 = src.skip_ws(at6);
        let at8 = src.tag(at7, "=>")?;
        let (at9, body) = Expr::parse_at(src, at8)?;
        Ok((at9, FuncDef { id, params, body }))
    }
}

impl Reassignment {
    pub fn parse_at(src: &Source, pos: usize) -> (r: Result<(usize, Reassignment), ParseError>)
        requires
            src.wf(),
            pos <= src.len,
        ensures
            parsed_as(r, reassignment_spec(src.chars(), pos as int)),
            r matches Ok((q, _)) ==> pos < q <= src.len,
    {
        let at0 = src.skip_ws(pos);
        let (at1, lhs) = Identifier::parse_at(src, at0)?;
        let at2 = src.skip_ws(at1);
        let at3 = src.tag(at2, "=")?;
        let (at4, rhs) = Expr::parse_at(src, at3)?;
        Ok((at4, Reassignment { lhs, rhs }))
    }
}

impl BindingRef {
    pub fn parse_at(src: &Source, pos: usize) -> (r: Result<(usize, BindingRef), ParseError>)
        requires
            src.wf(),
            pos <= src.len,
        ensures
            parsed_as(r, identifier_spec(src.chars(), pos as int)),
            r matches Ok((q, _)) ==> pos < q <= src.len,
    {
        let (q, id) = Identifier::parse_at(src, pos)?;
        Ok((q, BindingRef { id }))
    }
}

impl Parsed {
    pub fn parse_at(src: &Source, pos: usize) -> (r: Result<(usize, Parsed), ParseError>)
        requires
            src.wf(),
            pos <= src.len,
        ensures
            parsed_as(r, stmt_spec(src.chars(), pos as int)),
            r matches Ok((q, _)) ==> pos < q <= src.len,
    {
        let (q, st) = Stmt::parse_at(src, pos)?;
        Ok((q, Parsed(st)))
    }
}

impl Parse for Identifier {
    open spec fn rule(s: Seq<char>, pos: int) -> Result<(int, Seq<char>), SpecParseError> {
        identifier_spec(s, pos)
    }

    fn parse(s: &str) -> (r: Result<(String, Identifier), ParseError>) {
        let src = Source::new(s);
        let (q, x) = Identifier::parse_at(&src, 0)?;
        Ok((src.rest(q), x))
    }
}

impl Parse for LitStr {
    open spec fn rule(s: Seq<char>, pos: int) -> Result<(int, Seq<char>), SpecParseError> {
        lit_str_spec(s, pos)
    }

    fn parse(s: &str) -> (r: Result<(String, LitStr), ParseError>) {
        let src = Source::new(s);
        let (q, x) = LitStr::parse_at(&src, 0)?;
        Ok((src.rest(q), x))
    }
}

impl Parse for LitReal {
    open spec fn rule(s: Seq<char>, pos: int) -> Result<(int, Seq<char>), SpecParseError> {
        lit_real_spec(s, pos)
    }

    fn parse(s: &str) -> (r: Result<(String, LitReal), ParseError>) {
        let src = Source::new(s);
        let (q, x) = LitReal::parse_at(&src, 0)?;
        Ok((src.rest(q), x))
    }
}

impl Parse for LitBool {
    open spec fn rule(s: Seq<char>, pos: int) -> Result<(int, bool), SpecParseError> {
        lit_bool_spec(s, pos)
    }

    fn parse(s: &str) -> (r: Result<(String, LitBool), ParseError>) {
        let src = Source::new(s);
        let (q, x) = LitBool::parse_at(&src, 0)?;
        Ok((src.rest(q), x))
    }
}

impl Parse for Literal {
    open spec fn rule(s: Seq<char>, pos: int) -> Result<(int, SpecLiteral), SpecParseError> {
        literal_spec(s, pos)
    }

    fn parse(s: &str) -> (r: Result<(String, Literal), ParseError>) {
        let src = Source::new(s);
        let (q, x) = Literal::parse_at(&src, 0)?;
        Ok((src.rest(q), x))
    }
}

impl Parse for Op {
    open spec fn rule(s: Seq<char>, pos: int) -> Result<(int, Op), SpecParseError> {
        op_parse_spec(s, pos)
    }

    fn parse(s: &str) -> (r: Result<(String, Op), ParseError>) {
        let src = Source::new(s);
        let (q, x) = Op::parse_at(&src, 0)?;
        Ok((src.rest(q), x))
    }
}

impl Parse for BindingRef {
    open spec fn rule(s: Seq<char>, pos: int) -> Result<(int, Seq<char>), SpecParseError> {
        identifier_spec(s, pos)
    }

    fn parse(s: &str) -> (r: Result<(String, BindingRef), ParseError>) {
        let src = Source::new(s);
        let (q, x) = BindingRef::parse_at(&src, 0)?;
        Ok((src.rest(q), x))
    }
}

impl Parse for Expr {
    open spec fn rule(s: Seq<char>, pos: int) -> Result<(int, SpecExpr), SpecParseError> {
        expr_spec(s, pos)
    }

    fn parse(s: &str) -> (r: Result<(String, Expr), ParseError>) {
        let src = Source::new(s);
        let (q, x) = Expr::parse_at(&src, 0)?;
        Ok((src.rest(q), x))
    }
}

impl Parse for MathExpr {
    open spec fn rule(s: Seq<char>, pos: int) -> Result<(int, (SpecExpr, Op, SpecExpr)), SpecParseError> {
        math_spec(s, pos)
    }

    fn parse(s: &str) -> (r: Result<(String, MathExpr), ParseError>) {
        let src = Source::new(s);
        let (q, x) = MathExpr::parse_at(&src, 0)?;
        Ok((src.rest(q), x))
    }
}

impl Parse for FuncCall {
    open spec fn rule(s: Seq<char>, pos: int) -> Result<(int, (Seq<char>, Seq<SpecExpr>)), SpecParseError> {
        call_spec(s, pos)
    }

    fn parse(s: &str) -> (r: Result<(String, FuncCall), ParseError>) {
        let src = Source::new(s);
        let (q, x) = FuncCall::parse_at(&src, 0)?;
        Ok((src.rest(q), x))
    }
}

impl Parse for Block {
    open spec fn rule(s: Seq<char>, pos: int) -> Result<(int, Seq<SpecStmt>), SpecParseError> {
        block_spec(s, pos)
    }

    fn parse(s: &str) -> (r: Result<(String, Block), ParseError>) {
        let src = Source::new(s);
        let (q, x) = Block::parse_at(&src, 0)?;
        Ok((src.rest(q), x))
    }
}

impl Parse for Stmt {
    open spec fn rule(s: Seq<char>, pos: int) -> Result<(int, SpecStmt), SpecParseError> {
        stmt_spec(s, pos)
    }

    fn parse(s: &str) -> (r: Result<(String, Stmt), ParseError>) {
        let src = Source::new(s);
        let (q, x) = Stmt::parse_at(&src, 0)?;
        Ok((src.rest(q), x))
    }
}

impl Parse for Binding {
    open spec fn rule(s: Seq<char>, pos: int) -> Result<(int, (bool, Seq<char>, SpecExpr)), SpecParseError> {
        binding_spec(s, pos)
    }

    fn parse(s: &str) -> (r: Result<(String, Binding), ParseError>) {
        let src = Source::new(s);
        let (q, x) = Binding::parse_at(&src, 0)?;
        Ok((src.rest(q), x))
    }
}

impl Parse for FuncDef {
    open spec fn rule(s: Seq<char>, pos: int) -> Result<(int, (Seq<char>, Seq<Seq<char>>, SpecExpr)), SpecParseError> {
        funcdef_spec(s, pos)
    }

    fn parse(s: &str) -> (r: Result<(String, FuncDef), ParseError>) {
        let src = Source::new(s);
        let (q, x) = FuncDef::parse_at(&src, 0)?;
        Ok((src.rest(q), x))
    }
}

impl Parse for Reassignment {
    open spec fn rule(s: Seq<char>, pos: int) -> Result<(int, (Seq<char>, SpecExpr)), SpecParseError> {
        reassignment_spec(s, pos)
    }

    fn parse(s: &str) -> (r: Result<(String, Reassignment), ParseError>) {
        let src = Source::new(s);
        let (q, x) = Reassignment::parse_at(&src, 0)?;
        Ok((src.rest(q), x))
    }
}

impl Parse for Parsed {
    open spec fn rule(s: Seq<char>, pos: int) -> Result<(int, SpecStmt), SpecParseError> {
        stmt_spec(s, pos)
    }

    fn parse(s: &str) -> (r: Result<(String, Parsed), ParseError>) {
        let src = Source::new(s);
        let (q, x) = Parsed::parse_at(&src, 0)?;
        Ok((src.rest(q), x))
    }
}

} // verus!
