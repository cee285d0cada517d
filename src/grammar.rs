//! The grammar as spec functions over the input characters and a position.
//! Each rule gives the position after what it read and the tree it built, or
//! the error of its last alternative.
use vstd::prelude::*;

use crate::error::SpecParseError;
use crate::scan::{
    float_end, has_at, ident_spec, is_digit, lemma_float_end, lemma_run_end, op_spec, rest, run_end, skip_ws, string_spec, tag_spec,
    CharClass,
};
use crate::syntax::{Op, SpecExpr, SpecInner, SpecLiteral, SpecStmt};

verus! {

pub open spec fn is_keyword(id: Seq<char>) -> bool {
    id == "func"@ || id == "bind"@ || id == "final"@
}

/// `q` lies past `pos` and within the input.
pub open spec fn forward(s: Seq<char>, pos: int, q: int) -> bool {
    pos < q <= s.len()
}

pub open spec fn identifier_spec(s: Seq<char>, pos: int) -> Result<(int, Seq<char>), SpecParseError> {
    let p = skip_ws(s, pos);
    match ident_spec(s, p) {
        Err(e) => Err(e),
        Ok(e) => {
            let id = s.subrange(p, e);
            if e == p || is_keyword(id) {
                Err(SpecParseError::SequenceNotFound("valid identifier"@, id))
            } else {
                Ok((e, id))
            }
        },
    }
}

pub open spec fn lit_str_spec(s: Seq<char>, pos: int) -> Result<(int, Seq<char>), SpecParseError> {
    match string_spec(s, skip_ws(s, pos)) {
        Err(e) => Err(e),
        Ok((a, b, q)) => Ok((q, s.subrange(a, b))),
    }
}

/// A float run is decimal text when it holds at least one digit.
pub open spec fn is_decimal(t: Seq<char>) -> bool {
    exists|i: int| 0 <= i < t.len() && is_digit(#[trigger] t[i])
}

pub open spec fn lit_real_spec(s: Seq<char>, pos: int) -> Result<(int, Seq<char>), SpecParseError> {
    let p = skip_ws(s, pos);
    let e = float_end(s, p);
    let t = s.subrange(p, e);
    if is_decimal(t) {
        Ok((e, t))
    } else {
        Err(SpecParseError::MalformedNumber(t))
    }
}

/// `true` or `false`, with no check of what follows.
pub open spec fn lit_bool_spec(s: Seq<char>, pos: int) -> Result<(int, bool), SpecParseError> {
    let p = skip_ws(s, pos);
    if has_at(s, p, "true"@) {
        Ok((p + "true"@.len(), true))
    } else if has_at(s, p, "false"@) {
        Ok((p + "false"@.len(), false))
    } else if s.len() - p < 4 {
        Err(SpecParseError::SequenceNotFound("boolean sequence"@, rest(s, p)))
    } else {
        Err(SpecParseError::InvalidSequence("true|false"@, s.subrange(p, p + 4)))
    }
}

/// A real, else a string, else a boolean literal.
pub open spec fn literal_spec(s: Seq<char>, pos: int) -> Result<(int, SpecLiteral), SpecParseError> {
    match lit_real_spec(s, pos) {
        Ok((q, t)) => Ok((q, SpecLiteral::Real(t))),
        Err(_) => match lit_str_spec(s, pos) {
            Ok((q, t)) => Ok((q, SpecLiteral::Str(t))),
            Err(_) => match lit_bool_spec(s, pos) {
                Ok((q, b)) => Ok((q, SpecLiteral::Bool(b))),
                Err(e) => Err(e),
            },
        },
    }
}

pub open spec fn op_of(c: char) -> Op {
    if c == '+' {
        Op::Add
    } else if c == '-' {
        Op::Sub
    } else if c == '*' {
        Op::Mul
    } else {
        Op::Div
    }
}

pub open spec fn op_parse_spec(s: Seq<char>, pos: int) -> Result<(int, Op), SpecParseError> {
    let p = skip_ws(s, pos);
    match op_spec(s, p) {
        Err(e) => Err(e),
        Ok(q) => Ok((q, op_of(s[p]))),
    }
}

/// An optional `!`: the position after it, and whether it was there.
pub open spec fn negate_spec(s: Seq<char>, pos: int) -> (int, bool) {
    let p = skip_ws(s, pos);
    if p < s.len() && s[p] == '!' {
        (p + 1, true)
    } else {
        (p, false)
    }
}

/// Why no `!` stands at `p`: what stood there instead, or nothing.
pub open spec fn negate_error(s: Seq<char>, p: int) -> SpecParseError {
    if 0 <= p < s.len() {
        SpecParseError::InvalidSequence("!"@, seq![s[p]])
    } else {
        SpecParseError::SequenceNotFound("!"@, ""@)
    }
}

/// An optional `final`, with no check of what follows it.
pub open spec fn immutable_spec(s: Seq<char>, pos: int) -> (int, bool) {
    match tag_spec(s, pos, "final"@) {
        Ok(q) => (q, true),
        Err(_) => (pos, false),
    }
}

/// The left operand of a binary operation: a reference, else a real literal.
pub open spec fn math_lhs_spec(s: Seq<char>, pos: int) -> Result<(int, SpecExpr), SpecParseError> {
    match identifier_spec(s, pos) {
        Ok((q, id)) => Ok((q, SpecExpr { negate: false, inner: SpecInner::Ref(id) })),
        Err(_) => match lit_real_spec(s, pos) {
            Ok((q, t)) => Ok((q, SpecExpr { negate: false, inner: SpecInner::Simple(SpecLiteral::Real(t)) })),
            Err(e) => Err(e),
        },
    }
}

/// Parameter names separated by commas; a comma after the last is accepted.
pub open spec fn params_spec(s: Seq<char>, pos: int) -> (int, Seq<Seq<char>>)
    decreases s.len() - pos,
    when 0 <= pos <= s.len()
{
    proof {
        lemma_identifier(s, pos);
    }
    match identifier_spec(s, pos) {
        Err(_) => (pos, seq![]),
        Ok((q, id)) => {
            proof {
                lemma_tag(s, q, ","@);
            }
            let q2 = match tag_spec(s, q, ","@) {
                Ok(t) => t,
                Err(_) => q,
            };
            let (r, ids) = params_spec(s, q2);
            (r, seq![id] + ids)
        },
    }
}

pub open spec fn expr_spec(s: Seq<char>, pos: int) -> Result<(int, SpecExpr), SpecParseError>
    decreases s.len() - pos, 3int,
    when 0 <= pos <= s.len()
{
    proof {
        lemma_run_end(s, pos, CharClass::Whitespace);
    }
    let (p, neg) = negate_spec(s, pos);
    match inner_spec(s, p) {
        Err(e) => Err(e),
        Ok((q, i)) => Ok((q, SpecExpr { negate: neg, inner: i })),
    }
}

/// A call, else a binary operation, else a literal, else a reference, else a block.
pub open spec fn inner_spec(s: Seq<char>, pos: int) -> Result<(int, SpecInner), SpecParseError>
    decreases s.len() - pos, 2int,
    when 0 <= pos <= s.len()
{
    match call_spec(s, pos) {
        Ok((q, (f, args))) => Ok((q, SpecInner::Call(f, args))),
        Err(_) => match math_spec(s, pos) {
            Ok((q, (l, o, r))) => Ok((q, SpecInner::Math(Box::new(l), o, Box::new(r)))),
            Err(_) => match literal_spec(s, pos) {
                Ok((q, l)) => Ok((q, SpecInner::Simple(l))),
                Err(_) => match identifier_spec(s, pos) {
                    Ok((q, id)) => Ok((q, SpecInner::Ref(id))),
                    Err(_) => match block_spec(s, pos) {
                        Ok((q, b)) => Ok((q, SpecInner::Block(b))),
                        Err(e) => Err(e),
                    },
                },
            },
        },
    }
}

/// `name(args)`
pub open spec fn call_spec(s: Seq<char>, pos: int) -> Result<(int, (Seq<char>, Seq<SpecExpr>)), SpecParseError>
    decreases s.len() - pos, 1int,
    when 0 <= pos <= s.len()
{
    proof {
        lemma_identifier(s, pos);
    }
    match identifier_spec(s, pos) {
        Err(e) => Err(e),
        Ok((at1, f)) => {
            proof {
                lemma_tag(s, at1, "("@);
                reveal_strlit("(");
            }
            match tag_spec(s, at1, "("@) {
                Err(e) => Err(e),
                Ok(at2) => {
                    let (at3, args) = args_spec(s, at2);
                    match tag_spec(s, at3, ")"@) {
                        Err(e) => Err(e),
                        Ok(at4) => Ok((at4, (f, args))),
                    }
                },
            }
        },
    }
}

/// Arguments separated by commas, up to the first that does not parse; a comma
/// after the last is accepted.
pub open spec fn args_spec(s: Seq<char>, pos: int) -> (int, Seq<SpecExpr>)
    decreases s.len() - pos, 4int,
    when 0 <= pos <= s.len()
{
    match expr_spec(s, pos) {
        Err(_) => (pos, seq![]),
        Ok((q, e)) => if forward(s, pos, q) {
            proof {
                lemma_tag(s, q, ","@);
            }
            let q2 = match tag_spec(s, q, ","@) {
                Ok(t) => t,
                Err(_) => q,
            };
            let (r, es) = args_spec(s, q2);
            (r, seq![e] + es)
        } else {
            // never taken: an expression reads at least one character
            (pos, seq![])
        },
    }
}

/// `lhs op rhs`
pub open spec fn math_spec(s: Seq<char>, pos: int) -> Result<(int, (SpecExpr, Op, SpecExpr)), SpecParseError>
    decreases s.len() - pos, 1int,
    when 0 <= pos <= s.len()
{
    proof {
        lemma_math_lhs(s, pos);
    }
    match math_lhs_spec(s, pos) {
        Err(e) => Err(e),
        Ok((at1, l)) => {
            proof {
                lemma_op_parse(s, at1);
            }
            match op_parse_spec(s, at1) {
                Err(e) => Err(e),
                Ok((at2, o)) => match expr_spec(s, at2) {
                    Err(e) => Err(e),
                    Ok((at3, r)) => Ok((at3, (l, o, r))),
                },
            }
        },
    }
}

/// `{ stmts }`
pub open spec fn block_spec(s: Seq<char>, pos: int) -> Result<(int, Seq<SpecStmt>), SpecParseError>
    decreases s.len() - pos, 1int,
    when 0 <= pos <= s.len()
{
    proof {
        lemma_run_end(s, pos, CharClass::Whitespace);
        lemma_tag(s, skip_ws(s, pos), "{"@);
        reveal_strlit("{");
    }
    match tag_spec(s, skip_ws(s, pos), "{"@) {
        Err(e) => Err(e),
        Ok(at1) => {
            let (at2, stmts) = stmts_spec(s, at1);
            match tag_spec(s, at2, "}"@) {
                Err(e) => Err(e),
                Ok(at3) => Ok((at3, stmts)),
            }
        },
    }
}

/// Statements, each followed by optional whitespace, up to the first that does
/// not parse.
pub open spec fn stmts_spec(s: Seq<char>, pos: int) -> (int, Seq<SpecStmt>)
    decreases s.len() - pos, 5int,
    when 0 <= pos <= s.len()
{
    match stmt_spec(s, pos) {
        Err(_) => (pos, seq![]),
        Ok((q, st)) => if forward(s, pos, q) {
            proof {
                lemma_run_end(s, q, CharClass::Whitespace);
            }
            let (r, ss) = stmts_spec(s, skip_ws(s, q));
            (r, seq![st] + ss)
        } else {
            // never taken: a statement reads at least one character
            (pos, seq![])
        },
    }
}

/// A binding, else an expression, else a function definition.
pub open spec fn stmt_spec(s: Seq<char>, pos: int) -> Result<(int, SpecStmt), SpecParseError>
    decreases s.len() - pos, 4int,
    when 0 <= pos <= s.len()
{
    match binding_spec(s, pos) {
        Ok((q, (imm, id, e))) => Ok((q, SpecStmt::Binding(imm, id, e))),
        Err(_) => match expr_spec(s, pos) {
            Ok((q, e)) => Ok((q, SpecStmt::Expr(e))),
            Err(_) => match funcdef_spec(s, pos) {
                Ok((q, (f, ps, b))) => Ok((q, SpecStmt::Func(f, ps, b))),
                Err(e) => Err(e),
            },
        },
    }
}

/// `bind [final] name = expr`
pub open spec fn binding_spec(s: Seq<char>, pos: int) -> Result<(int, (bool, Seq<char>, SpecExpr)), SpecParseError>
    decreases s.len() - pos, 1int,
    when 0 <= pos <= s.len()
{
    proof {
        lemma_run_end(s, pos, CharClass::Whitespace);
        lemma_tag(s, skip_ws(s, pos), "bind"@);
        reveal_strlit("bind");
    }
    match tag_spec(s, skip_ws(s, pos), "bind"@) {
        Err(e) => Err(e),
        Ok(at1) => {
            proof {
                lemma_run_end(s, at1, CharClass::Whitespace);
                lemma_immutable(s, skip_ws(s, at1));
            }
            let (at3, imm) = immutable_spec(s, skip_ws(s, at1));
            proof {
                lemma_identifier(s, at3);
            }
            match identifier_spec(s, at3) {
                Err(e) => Err(e),
                Ok((at4, id)) => {
                    proof {
                        lemma_run_end(s, at4, CharClass::Whitespace);
                        lemma_tag(s, skip_ws(s, at4), "="@);
                    }
                    match tag_spec(s, skip_ws(s, at4), "="@) {
                        Err(e) => Err(e),
                        Ok(at6) => match expr_spec(s, at6) {
                            Err(e) => Err(e),
                            Ok((at7, e)) => Ok((at7, (imm, id, e))),
                        },
                    }
                },
            }
        },
    }
}

/// `func name(params) => body`
pub open spec fn funcdef_spec(s: Seq<char>, pos: int) -> Result<(int, (Seq<char>, Seq<Seq<char>>, SpecExpr)), SpecParseError>
    decreases s.len() - pos, 1int,
    when 0 <= pos <= s.len()
{
    proof {
        lemma_run_end(s, pos, CharClass::Whitespace);
        lemma_tag(s, skip_ws(s, pos), "func"@);
        reveal_strlit("func");
    }
    match tag_spec(s, skip_ws(s, pos), "func"@) {
        Err(e) => Err(e),
        Ok(at1) => {
            proof {
                lemma_run_end(s, at1, CharClass::Whitespace);
                lemma_identifier(s, skip_ws(s, at1));
            }
            match identifier_spec(s, skip_ws(s, at1)) {
                Err(e) => Err(e),
                Ok((at3, f)) => {
                    proof {
                        lemma_tag(s, at3, "("@);
                    }
                    match tag_spec(s, at3, "("@) {
                        Err(e) => Err(e),
                        Ok(at4) => {
                            proof {
                                lemma_params(s, at4);
                            }
                            let (at5, ps) = params_spec(s, at4);
                            proof {
                                lemma_tag(s, at5, ")"@);
                            }
                            match tag_spec(s, at5, ")"@) {
                                Err(e) => Err(e),
                                Ok(at6) => {
                                    proof {
                                        lemma_run_end(s, at6, CharClass::Whitespace);
                                        lemma_tag(s, skip_ws(s, at6), "=>"@);
                                    }
                                    match tag_spec(s, skip_ws(s, at6), "=>"@) {
                                        Err(e) => Err(e),
                                        Ok(at8) => match expr_spec(s, at8) {
                                            Err(e) => Err(e),
                                            Ok((at9, b)) => Ok((at9, (f, ps, b))),
                                        },
                                    }
                                },
                            }
                        },
                    }
                },
            }
        },
    }
}

/// `name = expr`
pub open spec fn reassignment_spec(s: Seq<char>, pos: int) -> Result<(int, (Seq<char>, SpecExpr)), SpecParseError> {
    match identifier_spec(s, skip_ws(s, pos)) {
        Err(e) => Err(e),
        Ok((at1, id)) => match tag_spec(s, skip_ws(s, at1), "="@) {
            Err(e) => Err(e),
            Ok(at3) => match expr_spec(s, at3) {
                Err(e) => Err(e),
                Ok((at4, e)) => Ok((at4, (id, e))),
            },
        },
    }
}

pub proof fn lemma_tag(s: Seq<char>, pos: int, t: Seq<char>)
    requires
        0 <= pos <= s.len(),
    ensures
        tag_spec(s, pos, t) matches Ok(q) ==> q == pos + t.len() && q <= s.len(),
{
}

pub proof fn lemma_identifier(s: Seq<char>, pos: int)
    requires
        0 <= pos <= s.len(),
    ensures
        identifier_spec(s, pos) matches Ok((q, id)) ==> pos < q <= s.len() && id.len() > 0,
{
    lemma_run_end(s, pos, CharClass::Whitespace);
    let p = skip_ws(s, pos);
    if p < s.len() {
        lemma_run_end(s, p, CharClass::Alphanumeric);
    }
}

pub proof fn lemma_lit_real(s: Seq<char>, pos: int)
    requires
        0 <= pos <= s.len(),
    ensures
        lit_real_spec(s, pos) matches Ok((q, t)) ==> pos < q <= s.len(),
{
    lemma_run_end(s, pos, CharClass::Whitespace);
    let p = skip_ws(s, pos);
    lemma_float_end(s, p);
}

pub proof fn lemma_math_lhs(s: Seq<char>, pos: int)
    requires
        0 <= pos <= s.len(),
    ensures
        math_lhs_spec(s, pos) matches Ok((q, t)) ==> pos < q <= s.len(),
{
    lemma_identifier(s, pos);
    lemma_lit_real(s, pos);
}

pub proof fn lemma_op_parse(s: Seq<char>, pos: int)
    requires
        0 <= pos <= s.len(),
    ensures
        op_parse_spec(s, pos) matches Ok((q, o)) ==> pos < q <= s.len(),
{
    lemma_run_end(s, pos, CharClass::Whitespace);
}

pub proof fn lemma_immutable(s: Seq<char>, pos: int)
    requires
        0 <= pos <= s.len(),
    ensures
        pos <= immutable_spec(s, pos).0 <= s.len(),
{
    lemma_tag(s, pos, "final"@);
}

pub proof fn lemma_params(s: Seq<char>, pos: int)
    requires
        0 <= pos <= s.len(),
    ensures
        pos <= params_spec(s, pos).0 <= s.len(),
    decreases s.len() - pos,
{
    lemma_identifier(s, pos);
    if let Ok((q, id)) = identifier_spec(s, pos) {
        lemma_tag(s, q, ","@);
        let q2 = match tag_spec(s, q, ","@) {
            Ok(t) => t,
            Err(_) => q,
        };
        lemma_params(s, q2);
    }
}

} // verus!
