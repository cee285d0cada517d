use vstd::prelude::*;

verus! {

/// A name: starts with an ASCII letter, holds ASCII letters and digits, and is
/// no keyword.
#[derive(Debug, PartialEq, Eq, Hash, Clone)]
pub struct Identifier(pub String);

impl Identifier {
    pub fn new(name: String) -> (r: Identifier)
        ensures
            r@ == name@,
    {
        Identifier(name)
    }
}

impl View for Identifier {
    type V = Seq<char>;

    open spec fn view(&self) -> Seq<char> {
        self.0@
    }
}

/// A string literal: the text between the quotes.
#[derive(Debug, PartialEq, Clone)]
pub struct LitStr(pub String);

/// A real-number literal, kept as its decimal text.
#[derive(Debug, PartialEq, Clone)]
pub struct LitReal(pub String);

#[derive(Debug, PartialEq, Clone)]
pub struct LitBool(pub bool);

#[derive(Debug, PartialEq, Clone)]
pub enum Literal {
    Str(LitStr),
    Real(LitReal),
    Bool(LitBool),
}

#[derive(Debug, PartialEq, Eq, Clone, Copy, Structural)]
pub enum Op {
    Add,
    Sub,
    Mul,
    Div,
}

/// The `!` in front of an expression.
#[derive(Debug, PartialEq, Clone, Copy)]
pub struct Negate;

/// The `final` of a binding.
#[derive(Debug, PartialEq, Clone, Default)]
pub struct Immutable;

/// A binary operation. Its left operand is a reference or a real literal, its
/// right operand any expression, so `a + b + c` reads as `a + (b + c)`.
#[derive(Debug, PartialEq)]
pub struct MathExpr {
    pub lhs: Expr,
    pub op: Op,
    pub rhs: Expr,
}

#[derive(Debug, PartialEq)]
pub enum InnerExpr {
    Simple(Literal),
    MathExpr(Box<MathExpr>),
    BindingRef(BindingRef),
    FuncCall(FuncCall),
    Block(Block),
}

#[derive(Debug, PartialEq)]
pub struct Expr {
    pub negate: Option<Negate>,
    pub inner: InnerExpr,
}

#[derive(Debug, Clone, PartialEq)]
pub struct BindingRef {
    pub id: Identifier,
}

#[derive(Debug, PartialEq)]
pub struct FuncCall {
    pub callee: Identifier,
    pub params: Vec<Expr>,
}

/// A sequence of statements between braces.
#[derive(Debug, PartialEq)]
pub struct Block {
    pub stmts: Vec<Stmt>,
}

#[derive(Debug, PartialEq)]
pub enum Stmt {
    Binding(Binding),
    Expr(Expr),
    Func(FuncDef),
}

/// `bind [final] name = expr`
#[derive(Debug, PartialEq)]
pub struct Binding {
    pub immutable: Option<Immutable>,
    pub ident: Identifier,
    pub expr: Expr,
}

/// `func name(params) => body`
#[derive(Debug, PartialEq)]
pub struct FuncDef {
    pub id: Identifier,
    pub params: Vec<Identifier>,
    pub body: Expr,
}

/// `name = expr`, giving an existing binding of the current scope a new value.
#[derive(Debug, PartialEq)]
pub struct Reassignment {
    pub lhs: Identifier,
    pub rhs: Expr,
}

/// One statement read from a line of source.
#[derive(Debug, PartialEq)]
pub struct Parsed(pub Stmt);

// The mathematical syntax tree.
pub enum SpecLiteral {
    Str(Seq<char>),
    Real(Seq<char>),
    Bool(bool),
}

pub struct SpecExpr {
    pub negate: bool,
    pub inner: SpecInner,
}

pub enum SpecInner {
    Simple(SpecLiteral),
    Math(Box<SpecExpr>, Op, Box<SpecExpr>),
    Ref(Seq<char>),
    Call(Seq<char>, Seq<SpecExpr>),
    Block(Seq<SpecStmt>),
}

pub enum SpecStmt {
    Binding(bool, Seq<char>, SpecExpr),
    Expr(SpecExpr),
    Func(Seq<char>, Seq<Seq<char>>, SpecExpr),
}

impl View for Literal {
    type V = SpecLiteral;

    open spec fn view(&self) -> SpecLiteral {
        match self {
            Literal::Str(s) => SpecLiteral::Str(s.0@),
            Literal::Real(r) => SpecLiteral::Real(r.0@),
            Literal::Bool(b) => SpecLiteral::Bool(b.0),
        }
    }
}

pub open spec fn view_idents(s: Seq<Identifier>) -> Seq<Seq<char>> {
    Seq::new(s.len(), |i: int| s[i]@)
}

pub open spec fn view_exprs(s: Seq<Expr>) -> Seq<SpecExpr>
    decreases s,
{
    if s.len() == 0 {
        seq![]
    } else {
        view_exprs(s.drop_last()).push(view_expr(s.last()))
    }
}

pub open spec fn view_stmts(s: Seq<Stmt>) -> Seq<SpecStmt>
    decreases s,
{
    if s.len() == 0 {
        seq![]
    } else {
        view_stmts(s.drop_last()).push(view_stmt(s.last()))
    }
}

pub open spec fn view_expr(e: Expr) -> SpecExpr
    decreases e,
{
    SpecExpr { negate: e.negate is Some, inner: view_inner(e.inner) }
}

pub open spec fn view_inner(i: InnerExpr) -> SpecInner
    decreases i,
{
    match i {
        InnerExpr::Simple(l) => SpecInner::Simple(l@),
        InnerExpr::MathExpr(m) => SpecInner::Math(
            Box::new(view_expr(m.lhs)),
            m.op,
            Box::new(view_expr(m.rhs)),
        ),
        InnerExpr::BindingRef(b) => SpecInner::Ref(b.id@),
        InnerExpr::FuncCall(c) => SpecInner::Call(c.callee@, view_exprs(c.params@)),
        InnerExpr::Block(b) => SpecInner::Block(view_stmts(b.stmts@)),
    }
}

pub open spec fn view_stmt(s: Stmt) -> SpecStmt
    decreases s,
{
    match s {
        Stmt::Binding(b) => SpecStmt::Binding(b.immutable is Some, b.ident@, view_expr(b.expr)),
        Stmt::Expr(e) => SpecStmt::Expr(view_expr(e)),
        Stmt::Func(f) => SpecStmt::Func(f.id@, view_idents(f.params@), view_expr(f.body)),
    }
}

impl View for Expr {
    type V = SpecExpr;

    open spec fn view(&self) -> SpecExpr {
        view_expr(*self)
    }
}

impl View for Stmt {
    type V = SpecStmt;

    open spec fn view(&self) -> SpecStmt {
        view_stmt(*self)
    }
}

impl View for LitStr {
    type V = Seq<char>;

    open spec fn view(&self) -> Seq<char> {
        self.0@
    }
}

impl View for LitReal {
    type V = Seq<char>;

    open spec fn view(&self) -> Seq<char> {
        self.0@
    }
}

impl View for LitBool {
    type V = bool;

    open spec fn view(&self) -> bool {
        self.0
    }
}

impl View for Op {
    type V = Op;

    open spec fn view(&self) -> Op {
        *self
    }
}

impl View for BindingRef {
    type V = Seq<char>;

    open spec fn view(&self) -> Seq<char> {
        self.id@
    }
}

impl View for InnerExpr {
    type V = SpecInner;

    open spec fn view(&self) -> SpecInner {
        view_inner(*self)
    }
}

impl View for MathExpr {
    type V = (SpecExpr, Op, SpecExpr);

    open spec fn view(&self) -> (SpecExpr, Op, SpecExpr) {
        (self.lhs@, self.op, self.rhs@)
    }
}

impl View for FuncCall {
    type V = (Seq<char>, Seq<SpecExpr>);

    open spec fn view(&self) -> (Seq<char>, Seq<SpecExpr>) {
        (self.callee@, view_exprs(self.params@))
    }
}

impl View for Block {
    type V = Seq<SpecStmt>;

    open spec fn view(&self) -> Seq<SpecStmt> {
        view_stmts(self.stmts@)
    }
}

impl View for Binding {
    type V = (bool, Seq<char>, SpecExpr);

    open spec fn view(&self) -> (bool, Seq<char>, SpecExpr) {
        (self.immutable is Some, self.ident@, self.expr@)
    }
}

impl View for FuncDef {
    type V = (Seq<char>, Seq<Seq<char>>, SpecExpr);

    open spec fn view(&self) -> (Seq<char>, Seq<Seq<char>>, SpecExpr) {
        (self.id@, view_idents(self.params@), self.body@)
    }
}

impl View for Reassignment {
    type V = (Seq<char>, SpecExpr);

    open spec fn view(&self) -> (Seq<char>, SpecExpr) {
        (self.lhs@, self.rhs@)
    }
}

impl View for Parsed {
    type V = SpecStmt;

    open spec fn view(&self) -> SpecStmt {
        self.0@
    }
}

impl Identifier {
    /// A copy of this name.
    pub fn duplicate(&self) -> (r: Identifier)
        ensures
            r@ == self@,
    {
        Identifier(self.0.clone())
    }
}

impl Literal {
    pub fn duplicate(&self) -> (r: Literal)
        ensures
            r@ == self@,
    {
        match self {
            Literal::Str(s) => Literal::Str(LitStr(s.0.clone())),
            Literal::Real(t) => Literal::Real(LitReal(t.0.clone())),
            Literal::Bool(b) => Literal::Bool(LitBool(b.0)),
        }
    }
}

pub fn duplicate_idents(v: &Vec<Identifier>) -> (r: Vec<Identifier>)
    ensures
        view_idents(r@) == view_idents(v@),
{
    let mut r: Vec<Identifier> = Vec::new();
    let mut i: usize = 0;
    while i < v.len()
        invariant
            0 <= i <= v.len(),
            r@.len() == i,
            forall|j: int| 0 <= j < i ==> (#[trigger] r@[j])@ == v@[j]@,
        decreases v.len() - i,
    {
        r.push(v[i].duplicate());
        i = i + 1;
    }
    assert(view_idents(r@) =~= view_idents(v@));
    r
}

pub fn duplicate_exprs(v: &Vec<Expr>) -> (r: Vec<Expr>)
    ensures
        view_exprs(r@) == view_exprs(v@),
    decreases v,
{
    let mut r: Vec<Expr> = Vec::new();
    let mut i: usize = 0;
    while i < v.len()
        invariant
            0 <= i <= v.len(),
            view_exprs(r@) == view_exprs(v@.subrange(0, i as int)),
        decreases v.len() - i,
    {
        assert(decreases_to!(v => v@[i as int]));
        let e = v[i].duplicate();
        proof {
            assert(r@.push(e).drop_last() =~= r@);
            assert(v@.subrange(0, i + 1).drop_last() =~= v@.subrange(0, i as int));
        }
        r.push(e);
        i = i + 1;
    }
    assert(v@.subrange(0, v.len() as int) =~= v@);
    r
}

pub fn duplicate_stmts(v: &Vec<Stmt>) -> (r: Vec<Stmt>)
    ensures
        view_stmts(r@) == view_stmts(v@),
    decreases v,
{
    let mut r: Vec<Stmt> = Vec::new();
    let mut i: usize = 0;
    while i < v.len()
        invariant
            0 <= i <= v.len(),
            view_stmts(r@) == view_stmts(v@.subrange(0, i as int)),
        decreases v.len() - i,
    {
        assert(decreases_to!(v => v@[i as int]));
        let st = v[i].duplicate();
        proof {
            assert(r@.push(st).drop_last() =~= r@);
            assert(v@.subrange(0, i + 1).drop_last() =~= v@.subrange(0, i as int));
        }
        r.push(st);
        i = i + 1;
    }
    assert(v@.subrange(0, v.len() as int) =~= v@);
    r
}

impl Expr {
    /// A copy of this expression.
    pub fn duplicate(&self) -> (r: Expr)
        ensures
            r@ == self@,
        decreases self,
    {
        let negate = match self.negate {
            Some(_) => Some(Negate),
            None => None,
        };
        Expr { negate, inner: self.inner.duplicate() }
    }
}

impl InnerExpr {
    pub fn duplicate(&self) -> (r: InnerExpr)
        ensures
            r@ == self@,
        decreases self,
    {
        match self {
            InnerExpr::Simple(l) => InnerExpr::Simple(l.duplicate()),
            InnerExpr::MathExpr(m) => InnerExpr::MathExpr(
                Box::new(MathExpr { lhs: m.lhs.duplicate(), op: m.op, rhs: m.rhs.duplicate() }),
            ),
            InnerExpr::BindingRef(b) => InnerExpr::BindingRef(BindingRef { id: b.id.duplicate() }),
            InnerExpr::FuncCall(c) => InnerExpr::FuncCall(
                FuncCall { callee: c.callee.duplicate(), params: duplicate_exprs(&c.params) },
            ),
            InnerExpr::Block(b) => InnerExpr::Block(Block { stmts: duplicate_stmts(&b.stmts) }),
        }
    }
}

impl Stmt {
    pub fn duplicate(&self) -> (r: Stmt)
        ensures
            r@ == self@,
        decreases self,
    {
        match self {
            Stmt::Binding(b) => Stmt::Binding(
                Binding {
                    immutable: match b.immutable {
                        Some(_) => Some(Immutable),
                        None => None,
                    },
                    ident: b.ident.duplicate(),
                    expr: b.expr.duplicate(),
                },
            ),
            Stmt::Expr(e) => Stmt::Expr(e.duplicate()),
            Stmt::Func(f) => Stmt::Func(
                FuncDef {
                    id: f.id.duplicate(),
                    params: duplicate_idents(&f.params),
                    body: f.body.duplicate(),
                },
            ),
        }
    }
}

pub proof fn lemma_view_exprs(v: Seq<Expr>)
    ensures
        view_exprs(v).len() == v.len(),
        forall|i: int| 0 <= i < v.len() ==> #[trigger] view_exprs(v)[i] == v[i]@,
    decreases v.len(),
{
    if v.len() > 0 {
        lemma_view_exprs(v.drop_last());
    }
}

pub proof fn lemma_view_stmts(v: Seq<Stmt>)
    ensures
        view_stmts(v).len() == v.len(),
        forall|i: int| 0 <= i < v.len() ==> #[trigger] view_stmts(v)[i] == v[i]@,
    decreases v.len(),
{
    if v.len() > 0 {
        lemma_view_stmts(v.drop_last());
    }
}

impl Expr {
    pub fn simple(lit: Literal) -> (r: Expr)
        ensures
            r@ == (SpecExpr { negate: false, inner: SpecInner::Simple(lit@) }),
    {
        Expr { negate: None, inner: InnerExpr::Simple(lit) }
    }

    pub fn math_expr(me: Box<MathExpr>) -> (r: Expr)
        ensures
            r@ == (SpecExpr {
                negate: false,
                inner: SpecInner::Math(Box::new(me.lhs@), me.op, Box::new(me.rhs@)),
            }),
    {
        Expr { negate: None, inner: InnerExpr::MathExpr(me) }
    }

    pub fn binding_ref(b_ref: BindingRef) -> (r: Expr)
        ensures
            r@ == (SpecExpr { negate: false, inner: SpecInner::Ref(b_ref@) }),
    {
        Expr { negate: None, inner: InnerExpr::BindingRef(b_ref) }
    }

    pub fn func_call(call: FuncCall) -> (r: Expr)
        ensures
            r@ == (SpecExpr { negate: false, inner: SpecInner::Call(call@.0, call@.1) }),
    {
        Expr { negate: None, inner: InnerExpr::FuncCall(call) }
    }

    pub fn block(block: Block) -> (r: Expr)
        ensures
            r@ == (SpecExpr { negate: false, inner: SpecInner::Block(block@) }),
    {
        Expr { negate: None, inner: InnerExpr::Block(block) }
    }

    /// Marks the expression as negated.
    pub fn negate(&mut self)
        ensures
            final(self)@ == (SpecExpr { negate: true, inner: old(self)@.inner }),
    {
        self.negate = Some(Negate);
    }
}

impl Binding {
    pub fn new(immutable: Option<Immutable>, ident: Identifier, expr: Expr) -> (r: Binding)
        ensures
            r@ == (immutable is Some, ident@, expr@),
    {
        Binding { immutable, ident, expr }
    }
}

} // verus!
