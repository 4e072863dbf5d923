//! The abstract syntax tree of the source language, together with its
//! mathematical model.
//!
//! The tree is an ownership tree rooted at [`Program`]: every composite node
//! exclusively owns its children, so the tree is acyclic and immutable once
//! constructed. The expression grammar is a five-level precedence chain,
//! each level owning the level below: [`Expr`] (logic) over [`Sent`]
//! (comparison) over [`Comp`] (additive) over [`Term`] (multiplicative)
//! over [`Fact`] (unary) over [`Prim`] (primary).
//!
//! Each node type `T` has a model type `TV` in which names are character
//! sequences and constants are unbounded integers; `T::deep_view` maps a
//! node to its model. All contracts of the other modules are stated over
//! these models.

use vstd::prelude::*;

verus! {

/// A whole source program: one outermost block.
#[derive(Debug, PartialEq, Eq, PartialOrd, Ord)]
pub struct Program {
    pub block: Block,
}

/// An ordered sequence of statements. Order is semantically meaningful:
/// declaration before use, sequential execution.
#[derive(Debug, PartialEq, Eq, PartialOrd, Ord)]
pub struct Block {
    pub statements: Vec<Statement>,
}

/// One statement of the language.
#[derive(Debug, PartialEq, Eq, PartialOrd, Ord)]
pub enum Statement {
    LetBe(LetBe),
    SetTo(SetTo),
    Rep(Rep),
    Print(Print),
}

/// `let <variable> be <expr> ;` — declare and initialize a variable.
#[derive(Debug, PartialEq, Eq, PartialOrd, Ord)]
pub struct LetBe {
    pub variable: String,
    pub expr: Expr,
}

/// `set <variable> to <expr> ;` — reassign a declared variable.
#[derive(Debug, PartialEq, Eq, PartialOrd, Ord)]
pub struct SetTo {
    pub variable: String,
    pub expr: Expr,
}

/// `rep <expr> { ... }` — run the nested block once per unit of the
/// magnitude of the count expression's value.
#[derive(Debug, PartialEq, Eq, PartialOrd, Ord)]
pub struct Rep {
    pub expr: Expr,
    pub block: Block,
}

/// `print <expr> ;` — print the expression's value in decimal.
#[derive(Debug, PartialEq, Eq, PartialOrd, Ord)]
pub struct Print {
    pub expr: Expr,
}

/// The loosest expression level: `&` and `|` over [`Sent`] operands.
/// The left operand of a binary node is of the same level, the right
/// operand of the next-lower level.
#[derive(Debug, PartialEq, Eq, PartialOrd, Ord)]
pub enum Expr {
    And(Box<Expr>, Sent),
    Or(Box<Expr>, Sent),
    Sent(Sent),
}

/// The comparison level: `=`, `>` and `<` over [`Comp`] operands.
#[derive(Debug, PartialEq, Eq, PartialOrd, Ord)]
pub enum Sent {
    Equals(Box<Sent>, Comp),
    Greater(Box<Sent>, Comp),
    Less(Box<Sent>, Comp),
    Comp(Comp),
}

/// The additive level: `+` and `-` over [`Term`] operands.
#[derive(Debug, PartialEq, Eq, PartialOrd, Ord)]
pub enum Comp {
    Add(Box<Comp>, Term),
    Sub(Box<Comp>, Term),
    Term(Term),
}

/// The multiplicative level: `*` and `/` over [`Fact`] operands.
#[derive(Debug, PartialEq, Eq, PartialOrd, Ord)]
pub enum Term {
    Mul(Box<Term>, Fact),
    Div(Box<Term>, Fact),
    Fact(Fact),
}

/// The unary level: sign-test `?`, logical not `!`, identity `+` and
/// negation `-` over a [`Prim`], or a bare [`Prim`].
#[derive(Debug, PartialEq, Eq, PartialOrd, Ord)]
pub enum Fact {
    Is(Prim),
    Not(Prim),
    Pos(Prim),
    Neg(Prim),
    Prim(Prim),
}

/// The primary level: a parenthesized full expression, an integer
/// constant, or a variable name.
#[derive(Debug, PartialEq, Eq, PartialOrd, Ord)]
pub enum Prim {
    Expr(Box<Expr>),
    Constant(i32),
    Variable(String),
}

/// A 32-bit signed integer value, the language's only numeric type.
#[derive(Debug, PartialEq, Eq, PartialOrd, Ord, Clone, Copy)]
pub struct Integer {
    pub value: i32,
}

impl From<i32> for Integer {
    fn from(value: i32) -> (r: Integer) {
        Integer { value }
    }
}

impl vstd::std_specs::convert::FromSpecImpl<i32> for Integer {
    open spec fn obeys_from_spec() -> bool {
        true
    }

    open spec fn from_spec(value: i32) -> Integer {
        Integer { value }
    }
}

/* The mathematical models. */

/// Model of [`Program`].
pub struct ProgramV {
    pub block: BlockV,
}

/// Model of [`Block`].
pub struct BlockV {
    pub statements: Seq<StatementV>,
}

/// Model of [`Statement`].
pub enum StatementV {
    LetBe(LetBeV),
    SetTo(SetToV),
    Rep(RepV),
    Print(PrintV),
}

/// Model of [`LetBe`].
pub struct LetBeV {
    pub variable: Seq<char>,
    pub expr: ExprV,
}

/// Model of [`SetTo`].
pub struct SetToV {
    pub variable: Seq<char>,
    pub expr: ExprV,
}

/// Model of [`Rep`].
pub struct RepV {
    pub expr: ExprV,
    pub block: BlockV,
}

/// Model of [`Print`].
pub struct PrintV {
    pub expr: ExprV,
}

/// Model of [`Expr`].
pub enum ExprV {
    And(Box<ExprV>, SentV),
    Or(Box<ExprV>, SentV),
    Sent(SentV),
}

/// Model of [`Sent`].
pub enum SentV {
    Equals(Box<SentV>, CompV),
    Greater(Box<SentV>, CompV),
    Less(Box<SentV>, CompV),
    Comp(CompV),
}

/// Model of [`Comp`].
pub enum CompV {
    Add(Box<CompV>, TermV),
    Sub(Box<CompV>, TermV),
    Term(TermV),
}

/// Model of [`Term`].
pub enum TermV {
    Mul(Box<TermV>, FactV),
    Div(Box<TermV>, FactV),
    Fact(FactV),
}

/// Model of [`Fact`].
pub enum FactV {
    Is(PrimV),
    Not(PrimV),
    Pos(PrimV),
    Neg(PrimV),
    Prim(PrimV),
}

/// Model of [`Prim`].
pub enum PrimV {
    Expr(Box<ExprV>),
    Constant(int),
    Variable(Seq<char>),
}

/* The view functions from tree to model. */

/// Model of an expression node.
pub open spec fn view_expr(e: Expr) -> ExprV
    decreases e,
{
    match e {
        Expr::And(l, r) => ExprV::And(Box::new(view_expr(*l)), view_sent(r)),
        Expr::Or(l, r) => ExprV::Or(Box::new(view_expr(*l)), view_sent(r)),
        Expr::Sent(s) => ExprV::Sent(view_sent(s)),
    }
}

/// Model of a comparison node.
pub open spec fn view_sent(s: Sent) -> SentV
    decreases s,
{
    match s {
        Sent::Equals(l, r) => SentV::Equals(Box::new(view_sent(*l)), view_comp(r)),
        Sent::Greater(l, r) => SentV::Greater(Box::new(view_sent(*l)), view_comp(r)),
        Sent::Less(l, r) => SentV::Less(Box::new(view_sent(*l)), view_comp(r)),
        Sent::Comp(c) => SentV::Comp(view_comp(c)),
    }
}

/// Model of an additive node.
pub open spec fn view_comp(c: Comp) -> CompV
    decreases c,
{
    match c {
        Comp::Add(l, r) => CompV::Add(Box::new(view_comp(*l)), view_term(r)),
        Comp::Sub(l, r) => CompV::Sub(Box::new(view_comp(*l)), view_term(r)),
        Comp::Term(t) => CompV::Term(view_term(t)),
    }
}

/// Model of a multiplicative node.
pub open spec fn view_term(t: Term) -> TermV
    decreases t,
{
    match t {
        Term::Mul(l, r) => TermV::Mul(Box::new(view_term(*l)), view_fact(r)),
        Term::Div(l, r) => TermV::Div(Box::new(view_term(*l)), view_fact(r)),
        Term::Fact(f) => TermV::Fact(view_fact(f)),
    }
}

/// Model of a unary node.
pub open spec fn view_fact(f: Fact) -> FactV
    decreases f,
{
    match f {
        Fact::Is(p) => FactV::Is(view_prim(p)),
        Fact::Not(p) => FactV::Not(view_prim(p)),
        Fact::Pos(p) => FactV::Pos(view_prim(p)),
        Fact::Neg(p) => FactV::Neg(view_prim(p)),
        Fact::Prim(p) => FactV::Prim(view_prim(p)),
    }
}

/// Model of a primary node.
pub open spec fn view_prim(p: Prim) -> PrimV
    decreases p,
{
    match p {
        Prim::Expr(e) => PrimV::Expr(Box::new(view_expr(*e))),
        Prim::Constant(v) => PrimV::Constant(v as int),
        Prim::Variable(x) => PrimV::Variable(x@),
    }
}

/// Model of a statement node.
pub open spec fn view_statement(s: Statement) -> StatementV
    decreases s, 0int,
{
    match s {
        Statement::LetBe(l) => StatementV::LetBe(
            LetBeV { variable: l.variable@, expr: view_expr(l.expr) },
        ),
        Statement::SetTo(l) => StatementV::SetTo(
            SetToV { variable: l.variable@, expr: view_expr(l.expr) },
        ),
        Statement::Rep(r) => StatementV::Rep(
            RepV { expr: view_expr(r.expr), block: view_block(r.block) },
        ),
        Statement::Print(p) => StatementV::Print(PrintV { expr: view_expr(p.expr) }),
    }
}

/// Models of the first `n` statements of a sequence, in order.
pub open spec fn view_statements(v: Seq<Statement>, n: int) -> Seq<StatementV>
    decreases v, n,
{
    if n <= 0 || v.len() < n {
        Seq::empty()
    } else {
        view_statements(v, n - 1).push(view_statement(v[n - 1]))
    }
}

/// Model of a block node.
pub open spec fn view_block(b: Block) -> BlockV
    decreases b, 1int,
{
    BlockV { statements: view_statements(b.statements@, b.statements@.len() as int) }
}

/// Model of a program node.
pub open spec fn view_program(p: Program) -> ProgramV {
    ProgramV { block: view_block(p.block) }
}

impl DeepView for Program {
    type V = ProgramV;

    open spec fn deep_view(&self) -> ProgramV {
        view_program(*self)
    }
}

impl DeepView for Block {
    type V = BlockV;

    open spec fn deep_view(&self) -> BlockV {
        view_block(*self)
    }
}

impl DeepView for Statement {
    type V = StatementV;

    open spec fn deep_view(&self) -> StatementV {
        view_statement(*self)
    }
}

impl DeepView for Expr {
    type V = ExprV;

    open spec fn deep_view(&self) -> ExprV {
        view_expr(*self)
    }
}

impl DeepView for Sent {
    type V = SentV;

    open spec fn deep_view(&self) -> SentV {
        view_sent(*self)
    }
}

impl DeepView for Comp {
    type V = CompV;

    open spec fn deep_view(&self) -> CompV {
        view_comp(*self)
    }
}

impl DeepView for Term {
    type V = TermV;

    open spec fn deep_view(&self) -> TermV {
        view_term(*self)
    }
}

impl DeepView for Fact {
    type V = FactV;

    open spec fn deep_view(&self) -> FactV {
        view_fact(*self)
    }
}

impl DeepView for Prim {
    type V = PrimV;

    open spec fn deep_view(&self) -> PrimV {
        view_prim(*self)
    }
}

impl DeepView for LetBe {
    type V = LetBeV;

    open spec fn deep_view(&self) -> LetBeV {
        LetBeV { variable: self.variable@, expr: view_expr(self.expr) }
    }
}

impl DeepView for SetTo {
    type V = SetToV;

    open spec fn deep_view(&self) -> SetToV {
        SetToV { variable: self.variable@, expr: view_expr(self.expr) }
    }
}

impl DeepView for Rep {
    type V = RepV;

    open spec fn deep_view(&self) -> RepV {
        RepV { expr: view_expr(self.expr), block: view_block(self.block) }
    }
}

impl DeepView for Print {
    type V = PrintV;

    open spec fn deep_view(&self) -> PrintV {
        PrintV { expr: view_expr(self.expr) }
    }
}

impl DeepView for Integer {
    type V = int;

    open spec fn deep_view(&self) -> int {
        self.value as int
    }
}

/// The statement models of a vector's view are exactly the vector's
/// element models, in order.
pub proof fn lemma_view_statements_is_map(v: Seq<Statement>, n: int)
    requires
        0 <= n <= v.len(),
    ensures
        view_statements(v, n).len() == n,
        forall|i: int| 0 <= i < n ==> view_statements(v, n)[i] == view_statement(v[i]),
    decreases n,
{
    if n > 0 {
        lemma_view_statements_is_map(v, n - 1);
    }
}

} // verus!
