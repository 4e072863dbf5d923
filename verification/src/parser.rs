//! The parser: recursive descent with one-token lookahead over the
//! five-level operator-precedence grammar.
//!
//! The spec-level functions `spec_parse_*` define the tree (or the error)
//! for any token sequence, and each executable function is proved to return
//! exactly that. Errors are non-recoverable: no synchronization or
//! skip-and-continue is attempted, and no partial tree is returned.
//!
//! Each precedence level parses one operand of the next-lower level, then
//! inspects the following token once: if it is one of the level's
//! operators, it consumes it and parses exactly one more lower operand to
//! build the binary node. A second same-level operator immediately after is
//! left unconsumed, so chains such as three additions in a row are rejected
//! downstream when the statement parser expects a terminator. This one-shot
//! behavior is a documented limitation of the grammar and is kept exactly
//! as stated here.

use vstd::prelude::*;
use crate::token::{Token, TokenV};
use crate::ast::{
    Block, BlockV, Comp, CompV, Expr, ExprV, Fact, FactV, LetBe, LetBeV, Prim, PrimV, Print,
    PrintV, Program, ProgramV, Rep, RepV, Sent, SentV, SetTo, SetToV, Statement, StatementV, Term,
    TermV, lemma_view_statements_is_map, view_block,
};

verus! {

/// A parsing failure. The parse aborts at the first failure.
#[derive(Debug, Clone, PartialEq)]
pub enum ParserError {
    /// The received token is not the expected one.
    UnexpectedToken { expected: Token, received: Token },
    /// The token sequence ended where more input was required.
    UnexpectedEnd,
    /// A token that cannot begin the construct being parsed.
    InvalidToken(Token),
}

/// Model of [`ParserError`].
pub enum ParserErrorV {
    UnexpectedToken { expected: TokenV, received: TokenV },
    UnexpectedEnd,
    InvalidToken(TokenV),
}

impl DeepView for ParserError {
    type V = ParserErrorV;

    open spec fn deep_view(&self) -> ParserErrorV {
        match self {
            ParserError::UnexpectedToken { expected, received } => ParserErrorV::UnexpectedToken {
                expected: expected.deep_view(),
                received: received.deep_view(),
            },
            ParserError::UnexpectedEnd => ParserErrorV::UnexpectedEnd,
            ParserError::InvalidToken(t) => ParserErrorV::InvalidToken(t.deep_view()),
        }
    }
}

/// A parse position advanced past at least one token, kept inside the
/// sequence: used by the spec-level parsers so that their recursion
/// visibly terminates. Every verified parser in fact returns a position
/// already in this range, so the clamp never alters a value it is given.
pub open spec fn clamp_after(len: int, i: int, j: int) -> int {
    if j < i + 1 {
        i + 1
    } else if len < j {
        len
    } else {
        j
    }
}

/* The spec-level parsers for the expression levels. */

/// Parses one primary: a parenthesized full expression, an integer
/// constant, or a variable name.
#[verifier::opaque]
pub open spec fn spec_parse_prim(t: Seq<TokenV>, i: int) -> Result<(PrimV, int), ParserErrorV>
    decreases t.len() - i, 0int,
{
    if i < 0 || t.len() <= i {
        Err(ParserErrorV::UnexpectedEnd)
    } else {
        match t[i] {
            TokenV::LParen => match spec_parse_expr(t, i + 1) {
                Err(e) => Err(e),
                Ok((e0, j0)) => {
                    let j = clamp_after(t.len() as int, i + 1, j0);
                    if t.len() <= j {
                        Err(ParserErrorV::UnexpectedEnd)
                    } else {
                        match t[j] {
                            TokenV::RParen => Ok((PrimV::Expr(Box::new(e0)), j + 1)),
                            _ => Err(
                                ParserErrorV::UnexpectedToken {
                                    expected: TokenV::RParen,
                                    received: t[j],
                                },
                            ),
                        }
                    }
                },
            },
            TokenV::Constant(v) => Ok((PrimV::Constant(v), i + 1)),
            TokenV::Variable(x) => Ok((PrimV::Variable(x), i + 1)),
            _ => Err(ParserErrorV::InvalidToken(t[i])),
        }
    }
}

/// Parses one unary level: a leading sign-test, not, plus or minus wraps a
/// following primary; otherwise a bare primary.
#[verifier::opaque]
pub open spec fn spec_parse_fact(t: Seq<TokenV>, i: int) -> Result<(FactV, int), ParserErrorV>
    decreases t.len() - i, 1int,
{
    if i < 0 || t.len() <= i {
        Err(ParserErrorV::UnexpectedEnd)
    } else {
        match t[i] {
            TokenV::Is => match spec_parse_prim(t, i + 1) {
                Ok((p, j)) => Ok((FactV::Is(p), j)),
                Err(e) => Err(e),
            },
            TokenV::Not => match spec_parse_prim(t, i + 1) {
                Ok((p, j)) => Ok((FactV::Not(p), j)),
                Err(e) => Err(e),
            },
            TokenV::Add => match spec_parse_prim(t, i + 1) {
                Ok((p, j)) => Ok((FactV::Pos(p), j)),
                Err(e) => Err(e),
            },
            TokenV::Sub => match spec_parse_prim(t, i + 1) {
                Ok((p, j)) => Ok((FactV::Neg(p), j)),
                Err(e) => Err(e),
            },
            TokenV::LParen | TokenV::Constant(_) | TokenV::Variable(_) => match spec_parse_prim(
                t,
                i,
            ) {
                Ok((p, j)) => Ok((FactV::Prim(p), j)),
                Err(e) => Err(e),
            },
            _ => Err(ParserErrorV::InvalidToken(t[i])),
        }
    }
}

/// Parses one multiplicative level: a unary operand, then at most one `*`
/// or `/` with one more unary operand.
#[verifier::opaque]
pub open spec fn spec_parse_term(t: Seq<TokenV>, i: int) -> Result<(TermV, int), ParserErrorV>
    decreases t.len() - i, 2int,
{
    if i < 0 || t.len() <= i {
        Err(ParserErrorV::UnexpectedEnd)
    } else {
        match spec_parse_fact(t, i) {
            Err(e) => Err(e),
            Ok((f, j0)) => {
                let j = clamp_after(t.len() as int, i, j0);
                if j < t.len() && t[j] == TokenV::Mul {
                    match spec_parse_fact(t, j + 1) {
                        Ok((f2, k)) => Ok((TermV::Mul(Box::new(TermV::Fact(f)), f2), k)),
                        Err(e) => Err(e),
                    }
                } else if j < t.len() && t[j] == TokenV::Div {
                    match spec_parse_fact(t, j + 1) {
                        Ok((f2, k)) => Ok((TermV::Div(Box::new(TermV::Fact(f)), f2), k)),
                        Err(e) => Err(e),
                    }
                } else {
                    Ok((TermV::Fact(f), j))
                }
            },
        }
    }
}

/// Parses one additive level: a multiplicative operand, then at most one
/// `+` or `-` with one more multiplicative operand.
#[verifier::opaque]
pub open spec fn spec_parse_comp(t: Seq<TokenV>, i: int) -> Result<(CompV, int), ParserErrorV>
    decreases t.len() - i, 3int,
{
    if i < 0 || t.len() <= i {
        Err(ParserErrorV::UnexpectedEnd)
    } else {
        match spec_parse_term(t, i) {
            Err(e) => Err(e),
            Ok((tm, j0)) => {
                let j = clamp_after(t.len() as int, i, j0);
                if j < t.len() && t[j] == TokenV::Add {
                    match spec_parse_term(t, j + 1) {
                        Ok((tm2, k)) => Ok((CompV::Add(Box::new(CompV::Term(tm)), tm2), k)),
                        Err(e) => Err(e),
                    }
                } else if j < t.len() && t[j] == TokenV::Sub {
                    match spec_parse_term(t, j + 1) {
                        Ok((tm2, k)) => Ok((CompV::Sub(Box::new(CompV::Term(tm)), tm2), k)),
                        Err(e) => Err(e),
                    }
                } else {
                    Ok((CompV::Term(tm), j))
                }
            },
        }
    }
}

/// Parses one comparison level: an additive operand, then at most one `=`,
/// `>` or `<` with one more additive operand.
#[verifier::opaque]
pub open spec fn spec_parse_sent(t: Seq<TokenV>, i: int) -> Result<(SentV, int), ParserErrorV>
    decreases t.len() - i, 4int,
{
    if i < 0 || t.len() <= i {
        Err(ParserErrorV::UnexpectedEnd)
    } else {
        match spec_parse_comp(t, i) {
            Err(e) => Err(e),
            Ok((c, j0)) => {
                let j = clamp_after(t.len() as int, i, j0);
                if j < t.len() && t[j] == TokenV::Equals {
                    match spec_parse_comp(t, j + 1) {
                        Ok((c2, k)) => Ok((SentV::Equals(Box::new(SentV::Comp(c)), c2), k)),
                        Err(e) => Err(e),
                    }
                } else if j < t.len() && t[j] == TokenV::Greater {
                    match spec_parse_comp(t, j + 1) {
                        Ok((c2, k)) => Ok((SentV::Greater(Box::new(SentV::Comp(c)), c2), k)),
                        Err(e) => Err(e),
                    }
                } else if j < t.len() && t[j] == TokenV::Less {
                    match spec_parse_comp(t, j + 1) {
                        Ok((c2, k)) => Ok((SentV::Less(Box::new(SentV::Comp(c)), c2), k)),
                        Err(e) => Err(e),
                    }
                } else {
                    Ok((SentV::Comp(c), j))
                }
            },
        }
    }
}

/// Parses one full expression: a comparison operand, then at most one `&`
/// or `|` with one more comparison operand.
#[verifier::opaque]
pub open spec fn spec_parse_expr(t: Seq<TokenV>, i: int) -> Result<(ExprV, int), ParserErrorV>
    decreases t.len() - i, 5int,
{
    if i < 0 || t.len() <= i {
        Err(ParserErrorV::UnexpectedEnd)
    } else {
        match spec_parse_sent(t, i) {
            Err(e) => Err(e),
            Ok((s0, j0)) => {
                let j = clamp_after(t.len() as int, i, j0);
                if j < t.len() && t[j] == TokenV::And {
                    match spec_parse_sent(t, j + 1) {
                        Ok((s2, k)) => Ok((ExprV::And(Box::new(ExprV::Sent(s0)), s2), k)),
                        Err(e) => Err(e),
                    }
                } else if j < t.len() && t[j] == TokenV::Or {
                    match spec_parse_sent(t, j + 1) {
                        Ok((s2, k)) => Ok((ExprV::Or(Box::new(ExprV::Sent(s0)), s2), k)),
                        Err(e) => Err(e),
                    }
                } else {
                    Ok((ExprV::Sent(s0), j))
                }
            },
        }
    }
}

/* The spec-level parsers for statements and blocks. */

/// Parses the rest of a `let` statement, after its keyword:
/// `<name> be <expr> ;`.
#[verifier::opaque]
pub open spec fn spec_parse_let(t: Seq<TokenV>, i: int) -> Result<(StatementV, int), ParserErrorV>
    decreases t.len() - i, 7int,
{
    if i < 0 || t.len() <= i {
        Err(ParserErrorV::UnexpectedEnd)
    } else {
        match t[i] {
            TokenV::Variable(x) => {
                if t.len() <= i + 1 {
                    Err(ParserErrorV::UnexpectedEnd)
                } else if t[i + 1] != TokenV::Be {
                    Err(ParserErrorV::UnexpectedToken { expected: TokenV::Be, received: t[i + 1] })
                } else if t.len() <= i + 2 {
                    Err(ParserErrorV::UnexpectedEnd)
                } else {
                    match spec_parse_expr(t, i + 2) {
                        Err(e) => Err(e),
                        Ok((e0, j0)) => {
                            let j = clamp_after(t.len() as int, i + 2, j0);
                            if t.len() <= j {
                                Err(ParserErrorV::UnexpectedEnd)
                            } else {
                                match t[j] {
                                    TokenV::Semicolon => Ok(
                                        (
                                            StatementV::LetBe(LetBeV { variable: x, expr: e0 }),
                                            j + 1,
                                        ),
                                    ),
                                    _ => Err(
                                        ParserErrorV::UnexpectedToken {
                                            expected: TokenV::Semicolon,
                                            received: t[j],
                                        },
                                    ),
                                }
                            }
                        },
                    }
                }
            },
            _ => Err(
                ParserErrorV::UnexpectedToken {
                    expected: TokenV::Variable(Seq::empty()),
                    received: t[i],
                },
            ),
        }
    }
}

/// Parses the rest of a `set` statement, after its keyword:
/// `<name> to <expr> ;`.
#[verifier::opaque]
pub open spec fn spec_parse_set(t: Seq<TokenV>, i: int) -> Result<(StatementV, int), ParserErrorV>
    decreases t.len() - i, 7int,
{
    if i < 0 || t.len() <= i {
        Err(ParserErrorV::UnexpectedEnd)
    } else {
        match t[i] {
            TokenV::Variable(x) => {
                if t.len() <= i + 1 {
                    Err(ParserErrorV::UnexpectedEnd)
                } else if t[i + 1] != TokenV::To {
                    Err(ParserErrorV::UnexpectedToken { expected: TokenV::To, received: t[i + 1] })
                } else if t.len() <= i + 2 {
                    Err(ParserErrorV::UnexpectedEnd)
                } else {
                    match spec_parse_expr(t, i + 2) {
                        Err(e) => Err(e),
                        Ok((e0, j0)) => {
                            let j = clamp_after(t.len() as int, i + 2, j0);
                            if t.len() <= j {
                                Err(ParserErrorV::UnexpectedEnd)
                            } else {
                                match t[j] {
                                    TokenV::Semicolon => Ok(
                                        (
                                            StatementV::SetTo(SetToV { variable: x, expr: e0 }),
                                            j + 1,
                                        ),
                                    ),
                                    _ => Err(
                                        ParserErrorV::UnexpectedToken {
                                            expected: TokenV::Semicolon,
                                            received: t[j],
                                        },
                                    ),
                                }
                            }
                        },
                    }
                }
            },
            _ => Err(
                ParserErrorV::UnexpectedToken {
                    expected: TokenV::Variable(Seq::empty()),
                    received: t[i],
                },
            ),
        }
    }
}

/// Parses the rest of a `print` statement, after its keyword: `<expr> ;`.
#[verifier::opaque]
pub open spec fn spec_parse_print(t: Seq<TokenV>, i: int) -> Result<
    (StatementV, int),
    ParserErrorV,
>
    decreases t.len() - i, 7int,
{
    if i < 0 || t.len() <= i {
        Err(ParserErrorV::UnexpectedEnd)
    } else {
        match spec_parse_expr(t, i) {
            Err(e) => Err(e),
            Ok((e0, j0)) => {
                let j = clamp_after(t.len() as int, i, j0);
                if t.len() <= j {
                    Err(ParserErrorV::UnexpectedEnd)
                } else {
                    match t[j] {
                        TokenV::Semicolon => Ok(
                            (StatementV::Print(PrintV { expr: e0 }), j + 1),
                        ),
                        _ => Err(
                            ParserErrorV::UnexpectedToken {
                                expected: TokenV::Semicolon,
                                received: t[j],
                            },
                        ),
                    }
                }
            },
        }
    }
}

/// Parses the rest of a `rep` statement, after its keyword:
/// `<expr> <brace-block>` — no semicolon.
#[verifier::opaque]
pub open spec fn spec_parse_rep(t: Seq<TokenV>, i: int) -> Result<(StatementV, int), ParserErrorV>
    decreases t.len() - i, 7int,
{
    if i < 0 || t.len() <= i {
        Err(ParserErrorV::UnexpectedEnd)
    } else {
        match spec_parse_expr(t, i) {
            Err(e) => Err(e),
            Ok((e0, j0)) => {
                let j = clamp_after(t.len() as int, i, j0);
                if t.len() <= j {
                    Err(ParserErrorV::UnexpectedEnd)
                } else {
                    match spec_parse_block(t, j, true) {
                        Err(e) => Err(e),
                        Ok((b, k)) => Ok((StatementV::Rep(RepV { expr: e0, block: b }), k)),
                    }
                }
            },
        }
    }
}

/// Parses one statement, dispatching on its leading keyword.
#[verifier::opaque]
pub open spec fn spec_parse_statement(t: Seq<TokenV>, i: int) -> Result<
    (StatementV, int),
    ParserErrorV,
>
    decreases t.len() - i, 8int,
{
    if i < 0 || t.len() <= i {
        Err(ParserErrorV::UnexpectedEnd)
    } else {
        match t[i] {
            TokenV::Let => spec_parse_let(t, i + 1),
            TokenV::SetKw => spec_parse_set(t, i + 1),
            TokenV::Rep => spec_parse_rep(t, i + 1),
            TokenV::Print => spec_parse_print(t, i + 1),
            _ => Err(ParserErrorV::InvalidToken(t[i])),
        }
    }
}

/// Prepends a statement to a statement-sequence parse, keeping an error
/// unchanged.
pub open spec fn cons_stmt(st: StatementV, r: Result<(Seq<StatementV>, int), ParserErrorV>) -> Result<
    (Seq<StatementV>, int),
    ParserErrorV,
> {
    match r {
        Ok((rest, k)) => Ok((seq![st] + rest, k)),
        Err(e) => Err(e),
    }
}

/// Parses statements in sequence. A brace-enclosed sequence ends at `}`
/// (consumed) and runs out of input with an error; the top-level sequence
/// ends with the input.
#[verifier::opaque]
pub open spec fn spec_parse_stmts(t: Seq<TokenV>, i: int, braced: bool) -> Result<
    (Seq<StatementV>, int),
    ParserErrorV,
>
    decreases t.len() - i, 9int,
{
    if 0 <= i && i < t.len() && braced && t[i] == TokenV::RBrace {
        Ok((Seq::empty(), i + 1))
    } else if i < 0 || t.len() <= i {
        if braced {
            Err(ParserErrorV::UnexpectedEnd)
        } else {
            Ok((Seq::empty(), i))
        }
    } else {
        match spec_parse_statement(t, i) {
            Err(e) => Err(e),
            Ok((st, j0)) => cons_stmt(
                st,
                spec_parse_stmts(t, clamp_after(t.len() as int, i, j0), braced),
            ),
        }
    }
}

/// Parses one block: brace-delimited when `braced`, to end of input
/// otherwise.
#[verifier::opaque]
pub open spec fn spec_parse_block(t: Seq<TokenV>, i: int, braced: bool) -> Result<
    (BlockV, int),
    ParserErrorV,
>
    decreases t.len() - i, 10int,
{
    if braced {
        if i < 0 || t.len() <= i {
            Err(ParserErrorV::UnexpectedEnd)
        } else {
            match t[i] {
                TokenV::LBrace => match spec_parse_stmts(t, i + 1, true) {
                    Ok((sv, j)) => Ok((BlockV { statements: sv }, j)),
                    Err(e) => Err(e),
                },
                _ => Err(
                    ParserErrorV::UnexpectedToken { expected: TokenV::LBrace, received: t[i] },
                ),
            }
        }
    } else {
        match spec_parse_stmts(t, i, false) {
            Ok((sv, j)) => Ok((BlockV { statements: sv }, j)),
            Err(e) => Err(e),
        }
    }
}

/// Parses a whole program: its top-level block, to end of input.
pub open spec fn spec_parse_program(t: Seq<TokenV>) -> Result<ProgramV, ParserErrorV> {
    match spec_parse_block(t, 0, false) {
        Ok((b, _)) => Ok(ProgramV { block: b }),
        Err(e) => Err(e),
    }
}

/// Parsing is deterministic: one token sequence has exactly one parse
/// result, so parsing the same sequence twice yields structurally equal
/// trees (or the same error).
pub proof fn lemma_parse_deterministic(t1: Seq<TokenV>, t2: Seq<TokenV>)
    requires
        t1 == t2,
    ensures
        spec_parse_program(t1) == spec_parse_program(t2),
{
}


proof fn spec_parse_sent_end(t: Seq<TokenV>, i: int)
    requires
        t.len() <= i,
    ensures
        spec_parse_sent(t, i) == Err::<(SentV, int), ParserErrorV>(ParserErrorV::UnexpectedEnd),
{
    reveal(spec_parse_sent);
}

proof fn spec_parse_sent_propagate(t: Seq<TokenV>, i: int, e: ParserErrorV)
    requires
        0 <= i < t.len(),
        spec_parse_comp(t, i) == Err::<(CompV, int), ParserErrorV>(e),
    ensures
        spec_parse_sent(t, i) == Err::<(SentV, int), ParserErrorV>(e),
{
    reveal(spec_parse_sent);
    reveal(spec_parse_comp);
}

proof fn spec_parse_sent_plain(t: Seq<TokenV>, i: int, x: CompV, j: int)
    requires
        0 <= i < t.len(),
        spec_parse_comp(t, i) == Ok::<(CompV, int), ParserErrorV>((x, j)),
        i < j <= t.len(),
        j == t.len() || (t[j] != TokenV::Equals && t[j] != TokenV::Greater && t[j] != TokenV::Less),
    ensures
        spec_parse_sent(t, i) == Ok::<(SentV, int), ParserErrorV>((SentV::Comp(x), j)),
{
    reveal(spec_parse_sent);
    reveal(spec_parse_comp);
}

proof fn spec_parse_sent_op_err(t: Seq<TokenV>, i: int, x: CompV, j: int, e: ParserErrorV)
    requires
        0 <= i < t.len(),
        spec_parse_comp(t, i) == Ok::<(CompV, int), ParserErrorV>((x, j)),
        i < j < t.len(),
        t[j] == TokenV::Equals || t[j] == TokenV::Greater || t[j] == TokenV::Less,
        spec_parse_comp(t, j + 1) == Err::<(CompV, int), ParserErrorV>(e),
    ensures
        spec_parse_sent(t, i) == Err::<(SentV, int), ParserErrorV>(e),
{
    reveal(spec_parse_sent);
    reveal(spec_parse_comp);
}

proof fn spec_parse_sent_equals(t: Seq<TokenV>, i: int, x: CompV, j: int, y: CompV, k: int)
    requires
        0 <= i < t.len(),
        spec_parse_comp(t, i) == Ok::<(CompV, int), ParserErrorV>((x, j)),
        i < j < t.len(),
        t[j] == TokenV::Equals,
        spec_parse_comp(t, j + 1) == Ok::<(CompV, int), ParserErrorV>((y, k)),
    ensures
        spec_parse_sent(t, i) == Ok::<(SentV, int), ParserErrorV>(
            (SentV::Equals(Box::new(SentV::Comp(x)), y), k),
        ),
{
    reveal(spec_parse_sent);
    reveal(spec_parse_comp);
}

proof fn spec_parse_sent_greater(t: Seq<TokenV>, i: int, x: CompV, j: int, y: CompV, k: int)
    requires
        0 <= i < t.len(),
        spec_parse_comp(t, i) == Ok::<(CompV, int), ParserErrorV>((x, j)),
        i < j < t.len(),
        t[j] == TokenV::Greater,
        spec_parse_comp(t, j + 1) == Ok::<(CompV, int), ParserErrorV>((y, k)),
    ensures
        spec_parse_sent(t, i) == Ok::<(SentV, int), ParserErrorV>(
            (SentV::Greater(Box::new(SentV::Comp(x)), y), k),
        ),
{
    reveal(spec_parse_sent);
    reveal(spec_parse_comp);
}

proof fn spec_parse_sent_less(t: Seq<TokenV>, i: int, x: CompV, j: int, y: CompV, k: int)
    requires
        0 <= i < t.len(),
        spec_parse_comp(t, i) == Ok::<(CompV, int), ParserErrorV>((x, j)),
        i < j < t.len(),
        t[j] == TokenV::Less,
        spec_parse_comp(t, j + 1) == Ok::<(CompV, int), ParserErrorV>((y, k)),
    ensures
        spec_parse_sent(t, i) == Ok::<(SentV, int), ParserErrorV>(
            (SentV::Less(Box::new(SentV::Comp(x)), y), k),
        ),
{
    reveal(spec_parse_sent);
    reveal(spec_parse_comp);
}

proof fn spec_parse_expr_end(t: Seq<TokenV>, i: int)
    requires
        t.len() <= i,
    ensures
        spec_parse_expr(t, i) == Err::<(ExprV, int), ParserErrorV>(ParserErrorV::UnexpectedEnd),
{
    reveal(spec_parse_expr);
}

proof fn spec_parse_expr_propagate(t: Seq<TokenV>, i: int, e: ParserErrorV)
    requires
        0 <= i < t.len(),
        spec_parse_sent(t, i) == Err::<(SentV, int), ParserErrorV>(e),
    ensures
        spec_parse_expr(t, i) == Err::<(ExprV, int), ParserErrorV>(e),
{
    reveal(spec_parse_expr);
    reveal(spec_parse_sent);
}

proof fn spec_parse_expr_plain(t: Seq<TokenV>, i: int, x: SentV, j: int)
    requires
        0 <= i < t.len(),
        spec_parse_sent(t, i) == Ok::<(SentV, int), ParserErrorV>((x, j)),
        i < j <= t.len(),
        j == t.len() || (t[j] != TokenV::And && t[j] != TokenV::Or),
    ensures
        spec_parse_expr(t, i) == Ok::<(ExprV, int), ParserErrorV>((ExprV::Sent(x), j)),
{
    reveal(spec_parse_expr);
    reveal(spec_parse_sent);
}

proof fn spec_parse_expr_op_err(t: Seq<TokenV>, i: int, x: SentV, j: int, e: ParserErrorV)
    requires
        0 <= i < t.len(),
        spec_parse_sent(t, i) == Ok::<(SentV, int), ParserErrorV>((x, j)),
        i < j < t.len(),
        t[j] == TokenV::And || t[j] == TokenV::Or,
        spec_parse_sent(t, j + 1) == Err::<(SentV, int), ParserErrorV>(e),
    ensures
        spec_parse_expr(t, i) == Err::<(ExprV, int), ParserErrorV>(e),
{
    reveal(spec_parse_expr);
    reveal(spec_parse_sent);
}

proof fn spec_parse_expr_and(t: Seq<TokenV>, i: int, x: SentV, j: int, y: SentV, k: int)
    requires
        0 <= i < t.len(),
        spec_parse_sent(t, i) == Ok::<(SentV, int), ParserErrorV>((x, j)),
        i < j < t.len(),
        t[j] == TokenV::And,
        spec_parse_sent(t, j + 1) == Ok::<(SentV, int), ParserErrorV>((y, k)),
    ensures
        spec_parse_expr(t, i) == Ok::<(ExprV, int), ParserErrorV>(
            (ExprV::And(Box::new(ExprV::Sent(x)), y), k),
        ),
{
    reveal(spec_parse_expr);
    reveal(spec_parse_sent);
}

proof fn spec_parse_expr_or(t: Seq<TokenV>, i: int, x: SentV, j: int, y: SentV, k: int)
    requires
        0 <= i < t.len(),
        spec_parse_sent(t, i) == Ok::<(SentV, int), ParserErrorV>((x, j)),
        i < j < t.len(),
        t[j] == TokenV::Or,
        spec_parse_sent(t, j + 1) == Ok::<(SentV, int), ParserErrorV>((y, k)),
    ensures
        spec_parse_expr(t, i) == Ok::<(ExprV, int), ParserErrorV>(
            (ExprV::Or(Box::new(ExprV::Sent(x)), y), k),
        ),
{
    reveal(spec_parse_expr);
    reveal(spec_parse_sent);
}


proof fn spec_parse_prim_end(t: Seq<TokenV>, i: int)
    requires
        t.len() <= i,
    ensures
        spec_parse_prim(t, i) == Err::<(PrimV, int), ParserErrorV>(ParserErrorV::UnexpectedEnd),
{
    reveal(spec_parse_prim);
}

proof fn spec_parse_prim_const(t: Seq<TokenV>, i: int, v: int)
    requires
        0 <= i < t.len(),
        t[i] == TokenV::Constant(v),
    ensures
        spec_parse_prim(t, i) == Ok::<(PrimV, int), ParserErrorV>((PrimV::Constant(v), i + 1)),
{
    reveal(spec_parse_prim);
}

proof fn spec_parse_prim_var(t: Seq<TokenV>, i: int, x: Seq<char>)
    requires
        0 <= i < t.len(),
        t[i] == TokenV::Variable(x),
    ensures
        spec_parse_prim(t, i) == Ok::<(PrimV, int), ParserErrorV>((PrimV::Variable(x), i + 1)),
{
    reveal(spec_parse_prim);
}

proof fn spec_parse_prim_invalid(t: Seq<TokenV>, i: int)
    requires
        0 <= i < t.len(),
        !(t[i] is LParen),
        !(t[i] is Constant),
        !(t[i] is Variable),
    ensures
        spec_parse_prim(t, i) == Err::<(PrimV, int), ParserErrorV>(
            ParserErrorV::InvalidToken(t[i]),
        ),
{
    reveal(spec_parse_prim);
}

proof fn spec_parse_prim_paren_err(t: Seq<TokenV>, i: int, e: ParserErrorV)
    requires
        0 <= i < t.len(),
        t[i] is LParen,
        spec_parse_expr(t, i + 1) == Err::<(ExprV, int), ParserErrorV>(e),
    ensures
        spec_parse_prim(t, i) == Err::<(PrimV, int), ParserErrorV>(e),
{
    reveal(spec_parse_prim);
    reveal(spec_parse_expr);
}

proof fn spec_parse_prim_paren_end(t: Seq<TokenV>, i: int, x: ExprV, j: int)
    requires
        0 <= i < t.len(),
        t[i] is LParen,
        spec_parse_expr(t, i + 1) == Ok::<(ExprV, int), ParserErrorV>((x, j)),
        i + 1 < j <= t.len(),
        j == t.len(),
    ensures
        spec_parse_prim(t, i) == Err::<(PrimV, int), ParserErrorV>(ParserErrorV::UnexpectedEnd),
{
    reveal(spec_parse_prim);
    reveal(spec_parse_expr);
}

proof fn spec_parse_prim_paren_ok(t: Seq<TokenV>, i: int, x: ExprV, j: int)
    requires
        0 <= i < t.len(),
        t[i] is LParen,
        spec_parse_expr(t, i + 1) == Ok::<(ExprV, int), ParserErrorV>((x, j)),
        i + 1 < j < t.len(),
        t[j] is RParen,
    ensures
        spec_parse_prim(t, i) == Ok::<(PrimV, int), ParserErrorV>(
            (PrimV::Expr(Box::new(x)), j + 1),
        ),
{
    reveal(spec_parse_prim);
    reveal(spec_parse_expr);
}

proof fn spec_parse_prim_paren_bad(t: Seq<TokenV>, i: int, x: ExprV, j: int)
    requires
        0 <= i < t.len(),
        t[i] is LParen,
        spec_parse_expr(t, i + 1) == Ok::<(ExprV, int), ParserErrorV>((x, j)),
        i + 1 < j < t.len(),
        !(t[j] is RParen),
    ensures
        spec_parse_prim(t, i) == Err::<(PrimV, int), ParserErrorV>(
            ParserErrorV::UnexpectedToken { expected: TokenV::RParen, received: t[j] },
        ),
{
    reveal(spec_parse_prim);
    reveal(spec_parse_expr);
}

proof fn spec_parse_let_end(t: Seq<TokenV>, i: int)
    requires
        t.len() <= i,
    ensures
        spec_parse_let(t, i) == Err::<(StatementV, int), ParserErrorV>(ParserErrorV::UnexpectedEnd),
{
    reveal(spec_parse_let);
}

proof fn spec_parse_let_notvar(t: Seq<TokenV>, i: int)
    requires
        0 <= i < t.len(),
        !(t[i] is Variable),
    ensures
        spec_parse_let(t, i) == Err::<(StatementV, int), ParserErrorV>(
            ParserErrorV::UnexpectedToken {
                expected: TokenV::Variable(Seq::empty()),
                received: t[i],
            },
        ),
{
    reveal(spec_parse_let);
}

proof fn spec_parse_let_end_after_var(t: Seq<TokenV>, i: int)
    requires
        0 <= i < t.len(),
        t[i] is Variable,
        t.len() <= i + 1,
    ensures
        spec_parse_let(t, i) == Err::<(StatementV, int), ParserErrorV>(ParserErrorV::UnexpectedEnd),
{
    reveal(spec_parse_let);
}

proof fn spec_parse_let_bad_keyword(t: Seq<TokenV>, i: int)
    requires
        0 <= i < t.len(),
        t[i] is Variable,
        i + 1 < t.len(),
        t[i + 1] != TokenV::Be,
    ensures
        spec_parse_let(t, i) == Err::<(StatementV, int), ParserErrorV>(
            ParserErrorV::UnexpectedToken { expected: TokenV::Be, received: t[i + 1] },
        ),
{
    reveal(spec_parse_let);
}

proof fn spec_parse_let_end_after_keyword(t: Seq<TokenV>, i: int)
    requires
        0 <= i < t.len(),
        t[i] is Variable,
        i + 1 < t.len(),
        t[i + 1] == TokenV::Be,
        t.len() <= i + 2,
    ensures
        spec_parse_let(t, i) == Err::<(StatementV, int), ParserErrorV>(ParserErrorV::UnexpectedEnd),
{
    reveal(spec_parse_let);
}

proof fn spec_parse_let_expr_err(t: Seq<TokenV>, i: int, e: ParserErrorV)
    requires
        0 <= i < t.len(),
        t[i] is Variable,
        i + 1 < t.len(),
        t[i + 1] == TokenV::Be,
        i + 2 < t.len(),
        spec_parse_expr(t, i + 2) == Err::<(ExprV, int), ParserErrorV>(e),
    ensures
        spec_parse_let(t, i) == Err::<(StatementV, int), ParserErrorV>(e),
{
    reveal(spec_parse_let);
    reveal(spec_parse_expr);
}

proof fn spec_parse_let_end_after_expr(t: Seq<TokenV>, i: int, x: ExprV, j: int)
    requires
        0 <= i < t.len(),
        t[i] is Variable,
        i + 1 < t.len(),
        t[i + 1] == TokenV::Be,
        i + 2 < t.len(),
        spec_parse_expr(t, i + 2) == Ok::<(ExprV, int), ParserErrorV>((x, j)),
        i + 2 < j <= t.len(),
        j == t.len(),
    ensures
        spec_parse_let(t, i) == Err::<(StatementV, int), ParserErrorV>(ParserErrorV::UnexpectedEnd),
{
    reveal(spec_parse_let);
    reveal(spec_parse_expr);
}

proof fn spec_parse_let_done(t: Seq<TokenV>, i: int, x: Seq<char>, e0: ExprV, j: int)
    requires
        0 <= i < t.len(),
        t[i] == TokenV::Variable(x),
        i + 1 < t.len(),
        t[i + 1] == TokenV::Be,
        i + 2 < t.len(),
        spec_parse_expr(t, i + 2) == Ok::<(ExprV, int), ParserErrorV>((e0, j)),
        i + 2 < j < t.len(),
        t[j] is Semicolon,
    ensures
        spec_parse_let(t, i) == Ok::<(StatementV, int), ParserErrorV>(
            (StatementV::LetBe(LetBeV { variable: x, expr: e0 }), j + 1),
        ),
{
    reveal(spec_parse_let);
    reveal(spec_parse_expr);
}

proof fn spec_parse_let_no_semicolon(t: Seq<TokenV>, i: int, x: ExprV, j: int)
    requires
        0 <= i < t.len(),
        t[i] is Variable,
        i + 1 < t.len(),
        t[i + 1] == TokenV::Be,
        i + 2 < t.len(),
        spec_parse_expr(t, i + 2) == Ok::<(ExprV, int), ParserErrorV>((x, j)),
        i + 2 < j < t.len(),
        !(t[j] is Semicolon),
    ensures
        spec_parse_let(t, i) == Err::<(StatementV, int), ParserErrorV>(
            ParserErrorV::UnexpectedToken { expected: TokenV::Semicolon, received: t[j] },
        ),
{
    reveal(spec_parse_let);
    reveal(spec_parse_expr);
}

proof fn spec_parse_set_end(t: Seq<TokenV>, i: int)
    requires
        t.len() <= i,
    ensures
        spec_parse_set(t, i) == Err::<(StatementV, int), ParserErrorV>(ParserErrorV::UnexpectedEnd),
{
    reveal(spec_parse_set);
}

proof fn spec_parse_set_notvar(t: Seq<TokenV>, i: int)
    requires
        0 <= i < t.len(),
        !(t[i] is Variable),
    ensures
        spec_parse_set(t, i) == Err::<(StatementV, int), ParserErrorV>(
            ParserErrorV::UnexpectedToken {
                expected: TokenV::Variable(Seq::empty()),
                received: t[i],
            },
        ),
{
    reveal(spec_parse_set);
}

proof fn spec_parse_set_end_after_var(t: Seq<TokenV>, i: int)
    requires
        0 <= i < t.len(),
        t[i] is Variable,
        t.len() <= i + 1,
    ensures
        spec_parse_set(t, i) == Err::<(StatementV, int), ParserErrorV>(ParserErrorV::UnexpectedEnd),
{
    reveal(spec_parse_set);
}

proof fn spec_parse_set_bad_keyword(t: Seq<TokenV>, i: int)
    requires
        0 <= i < t.len(),
        t[i] is Variable,
        i + 1 < t.len(),
        t[i + 1] != TokenV::To,
    ensures
        spec_parse_set(t, i) == Err::<(StatementV, int), ParserErrorV>(
            ParserErrorV::UnexpectedToken { expected: TokenV::To, received: t[i + 1] },
        ),
{
    reveal(spec_parse_set);
}

proof fn spec_parse_set_end_after_keyword(t: Seq<TokenV>, i: int)
    requires
        0 <= i < t.len(),
        t[i] is Variable,
        i + 1 < t.len(),
        t[i + 1] == TokenV::To,
        t.len() <= i + 2,
    ensures
        spec_parse_set(t, i) == Err::<(StatementV, int), ParserErrorV>(ParserErrorV::UnexpectedEnd),
{
    reveal(spec_parse_set);
}

proof fn spec_parse_set_expr_err(t: Seq<TokenV>, i: int, e: ParserErrorV)
    requires
        0 <= i < t.len(),
        t[i] is Variable,
        i + 1 < t.len(),
        t[i + 1] == TokenV::To,
        i + 2 < t.len(),
        spec_parse_expr(t, i + 2) == Err::<(ExprV, int), ParserErrorV>(e),
    ensures
        spec_parse_set(t, i) == Err::<(StatementV, int), ParserErrorV>(e),
{
    reveal(spec_parse_set);
    reveal(spec_parse_expr);
}

proof fn spec_parse_set_end_after_expr(t: Seq<TokenV>, i: int, x: ExprV, j: int)
    requires
        0 <= i < t.len(),
        t[i] is Variable,
        i + 1 < t.len(),
        t[i + 1] == TokenV::To,
        i + 2 < t.len(),
        spec_parse_expr(t, i + 2) == Ok::<(ExprV, int), ParserErrorV>((x, j)),
        i + 2 < j <= t.len(),
        j == t.len(),
    ensures
        spec_parse_set(t, i) == Err::<(StatementV, int), ParserErrorV>(ParserErrorV::UnexpectedEnd),
{
    reveal(spec_parse_set);
    reveal(spec_parse_expr);
}

proof fn spec_parse_set_done(t: Seq<TokenV>, i: int, x: Seq<char>, e0: ExprV, j: int)
    requires
        0 <= i < t.len(),
        t[i] == TokenV::Variable(x),
        i + 1 < t.len(),
        t[i + 1] == TokenV::To,
        i + 2 < t.len(),
        spec_parse_expr(t, i + 2) == Ok::<(ExprV, int), ParserErrorV>((e0, j)),
        i + 2 < j < t.len(),
        t[j] is Semicolon,
    ensures
        spec_parse_set(t, i) == Ok::<(StatementV, int), ParserErrorV>(
            (StatementV::SetTo(SetToV { variable: x, expr: e0 }), j + 1),
        ),
{
    reveal(spec_parse_set);
    reveal(spec_parse_expr);
}

proof fn spec_parse_set_no_semicolon(t: Seq<TokenV>, i: int, x: ExprV, j: int)
    requires
        0 <= i < t.len(),
        t[i] is Variable,
        i + 1 < t.len(),
        t[i + 1] == TokenV::To,
        i + 2 < t.len(),
        spec_parse_expr(t, i + 2) == Ok::<(ExprV, int), ParserErrorV>((x, j)),
        i + 2 < j < t.len(),
        !(t[j] is Semicolon),
    ensures
        spec_parse_set(t, i) == Err::<(StatementV, int), ParserErrorV>(
            ParserErrorV::UnexpectedToken { expected: TokenV::Semicolon, received: t[j] },
        ),
{
    reveal(spec_parse_set);
    reveal(spec_parse_expr);
}

/* The executable parser. */

/// Copies a token.
fn dup_token(t: &Token) -> (r: Token)
    ensures
        r == *t,
{
    match t {
        Token::Add => Token::Add,
        Token::Sub => Token::Sub,
        Token::Mul => Token::Mul,
        Token::Div => Token::Div,
        Token::Is => Token::Is,
        Token::Not => Token::Not,
        Token::And => Token::And,
        Token::Or => Token::Or,
        Token::Equals => Token::Equals,
        Token::Less => Token::Less,
        Token::Greater => Token::Greater,
        Token::Let => Token::Let,
        Token::Be => Token::Be,
        Token::SetKw => Token::SetKw,
        Token::To => Token::To,
        Token::Rep => Token::Rep,
        Token::Print => Token::Print,
        Token::LParen => Token::LParen,
        Token::RParen => Token::RParen,
        Token::LBrace => Token::LBrace,
        Token::RBrace => Token::RBrace,
        Token::Semicolon => Token::Semicolon,
        Token::Constant(v) => Token::Constant(*v),
        Token::Variable(x) => Token::Variable(x.clone()),
    }
}

/// Parses one primary at position `i`.
fn parse_prim(tokens: &Vec<Token>, i: usize) -> (r: Result<(Prim, usize), ParserError>)
    ensures
        match r {
            Ok((p, j)) => spec_parse_prim(tokens.deep_view(), i as int) == Ok::<
                (PrimV, int),
                ParserErrorV,
            >((p.deep_view(), j as int)) && i < j <= tokens.len(),
            Err(e) => spec_parse_prim(tokens.deep_view(), i as int) == Err::<
                (PrimV, int),
                ParserErrorV,
            >(e.deep_view()),
        },
    decreases tokens.len() - i, 0int,
{
    let ghost t = tokens.deep_view();
    if i >= tokens.len() {
        proof {
            spec_parse_prim_end(t, i as int);
        }
        return Err(ParserError::UnexpectedEnd);
    }
    match &tokens[i] {
        Token::LParen => {
            let (e, j) = match parse_expr(tokens, i + 1) {
                Ok(x) => x,
                Err(e) => {
                    proof {
                        spec_parse_prim_paren_err(t, i as int, e.deep_view());
                    }
                    return Err(e);
                },
            };
            if j >= tokens.len() {
                proof {
                    spec_parse_prim_paren_end(t, i as int, e.deep_view(), j as int);
                }
                return Err(ParserError::UnexpectedEnd);
            }
            match &tokens[j] {
                Token::RParen => {
                    let r = Prim::Expr(Box::new(e));
                    proof {
                        spec_parse_prim_paren_ok(t, i as int, e.deep_view(), j as int);
                    }
                    Ok((r, j + 1))
                },
                _ => {
                    let err = ParserError::UnexpectedToken {
                        expected: Token::RParen,
                        received: dup_token(&tokens[j]),
                    };
                    proof {
                        spec_parse_prim_paren_bad(t, i as int, e.deep_view(), j as int);
                    }
                    Err(err)
                },
            }
        },
        Token::Constant(v) => {
            let r = Prim::Constant(*v);
            proof {
                spec_parse_prim_const(t, i as int, *v as int);
            }
            Ok((r, i + 1))
        },
        Token::Variable(x) => {
            let r = Prim::Variable(x.clone());
            proof {
                spec_parse_prim_var(t, i as int, x@);
            }
            Ok((r, i + 1))
        },
        _ => {
            let err = ParserError::InvalidToken(dup_token(&tokens[i]));
            proof {
                spec_parse_prim_invalid(t, i as int);
            }
            Err(err)
        },
    }
}

/// Parses one unary level at position `i`.
fn parse_fact(tokens: &Vec<Token>, i: usize) -> (r: Result<(Fact, usize), ParserError>)
    ensures
        match r {
            Ok((f, j)) => spec_parse_fact(tokens.deep_view(), i as int) == Ok::<
                (FactV, int),
                ParserErrorV,
            >((f.deep_view(), j as int)) && i < j <= tokens.len(),
            Err(e) => spec_parse_fact(tokens.deep_view(), i as int) == Err::<
                (FactV, int),
                ParserErrorV,
            >(e.deep_view()),
        },
    decreases tokens.len() - i, 1int,
{
    proof {
        reveal(spec_parse_fact);
        reveal(spec_parse_prim);
    }
    if i >= tokens.len() {
        return Err(ParserError::UnexpectedEnd);
    }
    match &tokens[i] {
        Token::Is => match parse_prim(tokens, i + 1) {
            Ok((p, j)) => Ok((Fact::Is(p), j)),
            Err(e) => Err(e),
        },
        Token::Not => match parse_prim(tokens, i + 1) {
            Ok((p, j)) => Ok((Fact::Not(p), j)),
            Err(e) => Err(e),
        },
        Token::Add => match parse_prim(tokens, i + 1) {
            Ok((p, j)) => Ok((Fact::Pos(p), j)),
            Err(e) => Err(e),
        },
        Token::Sub => match parse_prim(tokens, i + 1) {
            Ok((p, j)) => Ok((Fact::Neg(p), j)),
            Err(e) => Err(e),
        },
        Token::LParen | Token::Constant(_) | Token::Variable(_) => match parse_prim(tokens, i) {
            Ok((p, j)) => Ok((Fact::Prim(p), j)),
            Err(e) => Err(e),
        },
        _ => Err(ParserError::InvalidToken(dup_token(&tokens[i]))),
    }
}

/// Parses one multiplicative level at position `i`.
#[verifier::rlimit(100)]
fn parse_term(tokens: &Vec<Token>, i: usize) -> (r: Result<(Term, usize), ParserError>)
    ensures
        match r {
            Ok((x, j)) => spec_parse_term(tokens.deep_view(), i as int) == Ok::<
                (TermV, int),
                ParserErrorV,
            >((x.deep_view(), j as int)) && i < j <= tokens.len(),
            Err(e) => spec_parse_term(tokens.deep_view(), i as int) == Err::<
                (TermV, int),
                ParserErrorV,
            >(e.deep_view()),
        },
    decreases tokens.len() - i, 2int,
{
    let ghost t = tokens.deep_view();
    if i >= tokens.len() {
        proof {
            assert(spec_parse_term(t, i as int) == Err::<(TermV, int), ParserErrorV>(
                ParserErrorV::UnexpectedEnd,
            )) by {
                reveal(spec_parse_term);
            }
        }
        return Err(ParserError::UnexpectedEnd);
    }
    let (f, j) = match parse_fact(tokens, i) {
        Ok(x) => x,
        Err(e) => {
            proof {
                assert(spec_parse_term(t, i as int) == Err::<(TermV, int), ParserErrorV>(e.deep_view()))
                    by {
                    reveal(spec_parse_term);
                    reveal(spec_parse_fact);
                }
            }
            return Err(e);
        },
    };
    if j < tokens.len() {
        match &tokens[j] {
            Token::Mul => match parse_fact(tokens, j + 1) {
                Ok((f2, k)) => {
                    let r = Term::Mul(Box::new(Term::Fact(f)), f2);
                    proof {
                        assert(Term::Fact(f).deep_view() == TermV::Fact(f.deep_view()));
                        assert(spec_parse_term(t, i as int) == Ok::<(TermV, int), ParserErrorV>(
                            (r.deep_view(), k as int),
                        )) by {
                            reveal(spec_parse_term);
                            reveal(spec_parse_fact);
                        }
                    }
                    Ok((r, k))
                },
                Err(e) => {
                    proof {
                        assert(spec_parse_term(t, i as int) == Err::<(TermV, int), ParserErrorV>(
                            e.deep_view(),
                        )) by {
                            reveal(spec_parse_term);
                            reveal(spec_parse_fact);
                        }
                    }
                    Err(e)
                },
            },
            Token::Div => match parse_fact(tokens, j + 1) {
                Ok((f2, k)) => {
                    let r = Term::Div(Box::new(Term::Fact(f)), f2);
                    proof {
                        assert(Term::Fact(f).deep_view() == TermV::Fact(f.deep_view()));
                        assert(spec_parse_term(t, i as int) == Ok::<(TermV, int), ParserErrorV>(
                            (r.deep_view(), k as int),
                        )) by {
                            reveal(spec_parse_term);
                            reveal(spec_parse_fact);
                        }
                    }
                    Ok((r, k))
                },
                Err(e) => {
                    proof {
                        assert(spec_parse_term(t, i as int) == Err::<(TermV, int), ParserErrorV>(
                            e.deep_view(),
                        )) by {
                            reveal(spec_parse_term);
                            reveal(spec_parse_fact);
                        }
                    }
                    Err(e)
                },
            },
            _ => {
                let r = Term::Fact(f);
                proof {
                    assert(spec_parse_term(t, i as int) == Ok::<(TermV, int), ParserErrorV>(
                        (r.deep_view(), j as int),
                    )) by {
                        reveal(spec_parse_term);
                        reveal(spec_parse_fact);
                    }
                }
                Ok((r, j))
            },
        }
    } else {
                let r = Term::Fact(f);
                proof {
                    assert(spec_parse_term(t, i as int) == Ok::<(TermV, int), ParserErrorV>(
                        (r.deep_view(), j as int),
                    )) by {
                        reveal(spec_parse_term);
                        reveal(spec_parse_fact);
                    }
                }
                Ok((r, j))
    }
}

/// Parses one additive level at position `i`.
#[verifier::rlimit(100)]
fn parse_comp(tokens: &Vec<Token>, i: usize) -> (r: Result<(Comp, usize), ParserError>)
    ensures
        match r {
            Ok((x, j)) => spec_parse_comp(tokens.deep_view(), i as int) == Ok::<
                (CompV, int),
                ParserErrorV,
            >((x.deep_view(), j as int)) && i < j <= tokens.len(),
            Err(e) => spec_parse_comp(tokens.deep_view(), i as int) == Err::<
                (CompV, int),
                ParserErrorV,
            >(e.deep_view()),
        },
    decreases tokens.len() - i, 3int,
{
    let ghost t = tokens.deep_view();
    if i >= tokens.len() {
        proof {
            assert(spec_parse_comp(t, i as int) == Err::<(CompV, int), ParserErrorV>(
                ParserErrorV::UnexpectedEnd,
            )) by {
                reveal(spec_parse_comp);
            }
        }
        return Err(ParserError::UnexpectedEnd);
    }
    let (f, j) = match parse_term(tokens, i) {
        Ok(x) => x,
        Err(e) => {
            proof {
                assert(spec_parse_comp(t, i as int) == Err::<(CompV, int), ParserErrorV>(e.deep_view()))
                    by {
                    reveal(spec_parse_comp);
                    reveal(spec_parse_term);
                }
            }
            return Err(e);
        },
    };
    if j < tokens.len() {
        match &tokens[j] {
            Token::Add => match parse_term(tokens, j + 1) {
                Ok((f2, k)) => {
                    let r = Comp::Add(Box::new(Comp::Term(f)), f2);
                    proof {
                        assert(Comp::Term(f).deep_view() == CompV::Term(f.deep_view()));
                        assert(spec_parse_comp(t, i as int) == Ok::<(CompV, int), ParserErrorV>(
                            (r.deep_view(), k as int),
                        )) by {
                            reveal(spec_parse_comp);
                            reveal(spec_parse_term);
                        }
                    }
                    Ok((r, k))
                },
                Err(e) => {
                    proof {
                        assert(spec_parse_comp(t, i as int) == Err::<(CompV, int), ParserErrorV>(
                            e.deep_view(),
                        )) by {
                            reveal(spec_parse_comp);
                            reveal(spec_parse_term);
                        }
                    }
                    Err(e)
                },
            },
            Token::Sub => match parse_term(tokens, j + 1) {
                Ok((f2, k)) => {
                    let r = Comp::Sub(Box::new(Comp::Term(f)), f2);
                    proof {
                        assert(Comp::Term(f).deep_view() == CompV::Term(f.deep_view()));
                        assert(spec_parse_comp(t, i as int) == Ok::<(CompV, int), ParserErrorV>(
                            (r.deep_view(), k as int),
                        )) by {
                            reveal(spec_parse_comp);
                            reveal(spec_parse_term);
                        }
                    }
                    Ok((r, k))
                },
                Err(e) => {
                    proof {
                        assert(spec_parse_comp(t, i as int) == Err::<(CompV, int), ParserErrorV>(
                            e.deep_view(),
                        )) by {
                            reveal(spec_parse_comp);
                            reveal(spec_parse_term);
                        }
                    }
                    Err(e)
                },
            },
            _ => {
                let r = Comp::Term(f);
                proof {
                    assert(spec_parse_comp(t, i as int) == Ok::<(CompV, int), ParserErrorV>(
                        (r.deep_view(), j as int),
                    )) by {
                        reveal(spec_parse_comp);
                        reveal(spec_parse_term);
                    }
                }
                Ok((r, j))
            },
        }
    } else {
                let r = Comp::Term(f);
                proof {
                    assert(spec_parse_comp(t, i as int) == Ok::<(CompV, int), ParserErrorV>(
                        (r.deep_view(), j as int),
                    )) by {
                        reveal(spec_parse_comp);
                        reveal(spec_parse_term);
                    }
                }
                Ok((r, j))
    }
}

/// Parses one comparison level at position `i`.
fn parse_sent(tokens: &Vec<Token>, i: usize) -> (r: Result<(Sent, usize), ParserError>)
    ensures
        match r {
            Ok((x, j)) => spec_parse_sent(tokens.deep_view(), i as int) == Ok::<
                (SentV, int),
                ParserErrorV,
            >((x.deep_view(), j as int)) && i < j <= tokens.len(),
            Err(e) => spec_parse_sent(tokens.deep_view(), i as int) == Err::<
                (SentV, int),
                ParserErrorV,
            >(e.deep_view()),
        },
    decreases tokens.len() - i, 4int,
{
    let ghost t = tokens.deep_view();
    if i >= tokens.len() {
        proof {
            spec_parse_sent_end(t, i as int);
        }
        return Err(ParserError::UnexpectedEnd);
    }
    let (f, j) = match parse_comp(tokens, i) {
        Ok(x) => x,
        Err(e) => {
            proof {
                spec_parse_sent_propagate(t, i as int, e.deep_view());
            }
            return Err(e);
        },
    };
    if j < tokens.len() {
        match &tokens[j] {
            Token::Equals => match parse_comp(tokens, j + 1) {
                Ok((f2, k)) => {
                    let r = Sent::Equals(Box::new(Sent::Comp(f)), f2);
                    proof {
                        spec_parse_sent_equals(
                            t,
                            i as int,
                            f.deep_view(),
                            j as int,
                            f2.deep_view(),
                            k as int,
                        );
                        assert(Sent::Comp(f).deep_view() == SentV::Comp(f.deep_view()));
                    }
                    Ok((r, k))
                },
                Err(e) => {
                    proof {
                        spec_parse_sent_op_err(t, i as int, f.deep_view(), j as int, e.deep_view());
                    }
                    Err(e)
                },
            },
            Token::Greater => match parse_comp(tokens, j + 1) {
                Ok((f2, k)) => {
                    let r = Sent::Greater(Box::new(Sent::Comp(f)), f2);
                    proof {
                        spec_parse_sent_greater(
                            t,
                            i as int,
                            f.deep_view(),
                            j as int,
                            f2.deep_view(),
                            k as int,
                        );
                        assert(Sent::Comp(f).deep_view() == SentV::Comp(f.deep_view()));
                    }
                    Ok((r, k))
                },
                Err(e) => {
                    proof {
                        spec_parse_sent_op_err(t, i as int, f.deep_view(), j as int, e.deep_view());
                    }
                    Err(e)
                },
            },
            Token::Less => match parse_comp(tokens, j + 1) {
                Ok((f2, k)) => {
                    let r = Sent::Less(Box::new(Sent::Comp(f)), f2);
                    proof {
                        spec_parse_sent_less(
                            t,
                            i as int,
                            f.deep_view(),
                            j as int,
                            f2.deep_view(),
                            k as int,
                        );
                        assert(Sent::Comp(f).deep_view() == SentV::Comp(f.deep_view()));
                    }
                    Ok((r, k))
                },
                Err(e) => {
                    proof {
                        spec_parse_sent_op_err(t, i as int, f.deep_view(), j as int, e.deep_view());
                    }
                    Err(e)
                },
            },
            _ => {
                let r = Sent::Comp(f);
                proof {
                    spec_parse_sent_plain(t, i as int, f.deep_view(), j as int);
                }
                Ok((r, j))
            },
        }
    } else {
                let r = Sent::Comp(f);
                proof {
                    spec_parse_sent_plain(t, i as int, f.deep_view(), j as int);
                }
                Ok((r, j))
    }
}

/// Parses one full expression at position `i`.
fn parse_expr(tokens: &Vec<Token>, i: usize) -> (r: Result<(Expr, usize), ParserError>)
    ensures
        match r {
            Ok((x, j)) => spec_parse_expr(tokens.deep_view(), i as int) == Ok::<
                (ExprV, int),
                ParserErrorV,
            >((x.deep_view(), j as int)) && i < j <= tokens.len(),
            Err(e) => spec_parse_expr(tokens.deep_view(), i as int) == Err::<
                (ExprV, int),
                ParserErrorV,
            >(e.deep_view()),
        },
    decreases tokens.len() - i, 5int,
{
    let ghost t = tokens.deep_view();
    if i >= tokens.len() {
        proof {
            spec_parse_expr_end(t, i as int);
        }
        return Err(ParserError::UnexpectedEnd);
    }
    let (f, j) = match parse_sent(tokens, i) {
        Ok(x) => x,
        Err(e) => {
            proof {
                spec_parse_expr_propagate(t, i as int, e.deep_view());
            }
            return Err(e);
        },
    };
    if j < tokens.len() {
        match &tokens[j] {
            Token::And => match parse_sent(tokens, j + 1) {
                Ok((f2, k)) => {
                    let r = Expr::And(Box::new(Expr::Sent(f)), f2);
                    proof {
                        spec_parse_expr_and(
                            t,
                            i as int,
                            f.deep_view(),
                            j as int,
                            f2.deep_view(),
                            k as int,
                        );
                        assert(Expr::Sent(f).deep_view() == ExprV::Sent(f.deep_view()));
                    }
                    Ok((r, k))
                },
                Err(e) => {
                    proof {
                        spec_parse_expr_op_err(t, i as int, f.deep_view(), j as int, e.deep_view());
                    }
                    Err(e)
                },
            },
            Token::Or => match parse_sent(tokens, j + 1) {
                Ok((f2, k)) => {
                    let r = Expr::Or(Box::new(Expr::Sent(f)), f2);
                    proof {
                        spec_parse_expr_or(
                            t,
                            i as int,
                            f.deep_view(),
                            j as int,
                            f2.deep_view(),
                            k as int,
                        );
                        assert(Expr::Sent(f).deep_view() == ExprV::Sent(f.deep_view()));
                    }
                    Ok((r, k))
                },
                Err(e) => {
                    proof {
                        spec_parse_expr_op_err(t, i as int, f.deep_view(), j as int, e.deep_view());
                    }
                    Err(e)
                },
            },
            _ => {
                let r = Expr::Sent(f);
                proof {
                    spec_parse_expr_plain(t, i as int, f.deep_view(), j as int);
                }
                Ok((r, j))
            },
        }
    } else {
                let r = Expr::Sent(f);
                proof {
                    spec_parse_expr_plain(t, i as int, f.deep_view(), j as int);
                }
                Ok((r, j))
    }
}

/// Parses the rest of a `let` statement, after its keyword.
fn parse_let_be(tokens: &Vec<Token>, i: usize) -> (r: Result<(Statement, usize), ParserError>)
    ensures
        match r {
            Ok((st, j)) => spec_parse_let(tokens.deep_view(), i as int) == Ok::<
                (StatementV, int),
                ParserErrorV,
            >((st.deep_view(), j as int)) && i < j <= tokens.len(),
            Err(e) => spec_parse_let(tokens.deep_view(), i as int) == Err::<
                (StatementV, int),
                ParserErrorV,
            >(e.deep_view()),
        },
    decreases tokens.len() - i, 7int,
{
    let ghost t = tokens.deep_view();
    if i >= tokens.len() {
        proof {
            spec_parse_let_end(t, i as int);
        }
        return Err(ParserError::UnexpectedEnd);
    }
    let variable = match &tokens[i] {
        Token::Variable(x) => x.clone(),
        _ => {
            let err = ParserError::UnexpectedToken {
                expected: Token::Variable(String::new()),
                received: dup_token(&tokens[i]),
            };
            proof {
                spec_parse_let_notvar(t, i as int);
            }
            return Err(err);
        },
    };
    if i + 1 >= tokens.len() {
        proof {
            spec_parse_let_end_after_var(t, i as int);
        }
        return Err(ParserError::UnexpectedEnd);
    }
    match &tokens[i + 1] {
        Token::Be => (),
        _ => {
            let err = ParserError::UnexpectedToken {
                expected: Token::Be,
                received: dup_token(&tokens[i + 1]),
            };
            proof {
                spec_parse_let_bad_keyword(t, i as int);
            }
            return Err(err);
        },
    }
    if i + 2 >= tokens.len() {
        proof {
            spec_parse_let_end_after_keyword(t, i as int);
        }
        return Err(ParserError::UnexpectedEnd);
    }
    let (e, j) = match parse_expr(tokens, i + 2) {
        Ok(x) => x,
        Err(e) => {
            proof {
                spec_parse_let_expr_err(t, i as int, e.deep_view());
            }
            return Err(e);
        },
    };
    if j >= tokens.len() {
        proof {
            spec_parse_let_end_after_expr(t, i as int, e.deep_view(), j as int);
        }
        return Err(ParserError::UnexpectedEnd);
    }
    match &tokens[j] {
        Token::Semicolon => {
            let st = Statement::LetBe(LetBe { variable, expr: e });
            proof {
                spec_parse_let_done(t, i as int, st->LetBe_0.variable@, e.deep_view(), j as int);
            }
            Ok((st, j + 1))
        },
        _ => {
            let err = ParserError::UnexpectedToken {
                expected: Token::Semicolon,
                received: dup_token(&tokens[j]),
            };
            proof {
                spec_parse_let_no_semicolon(t, i as int, e.deep_view(), j as int);
            }
            Err(err)
        },
    }
}

/// Parses the rest of a `set` statement, after its keyword.
fn parse_set_to(tokens: &Vec<Token>, i: usize) -> (r: Result<(Statement, usize), ParserError>)
    ensures
        match r {
            Ok((st, j)) => spec_parse_set(tokens.deep_view(), i as int) == Ok::<
                (StatementV, int),
                ParserErrorV,
            >((st.deep_view(), j as int)) && i < j <= tokens.len(),
            Err(e) => spec_parse_set(tokens.deep_view(), i as int) == Err::<
                (StatementV, int),
                ParserErrorV,
            >(e.deep_view()),
        },
    decreases tokens.len() - i, 7int,
{
    let ghost t = tokens.deep_view();
    if i >= tokens.len() {
        proof {
            spec_parse_set_end(t, i as int);
        }
        return Err(ParserError::UnexpectedEnd);
    }
    let variable = match &tokens[i] {
        Token::Variable(x) => x.clone(),
        _ => {
            let err = ParserError::UnexpectedToken {
                expected: Token::Variable(String::new()),
                received: dup_token(&tokens[i]),
            };
            proof {
                spec_parse_set_notvar(t, i as int);
            }
            return Err(err);
        },
    };
    if i + 1 >= tokens.len() {
        proof {
            spec_parse_set_end_after_var(t, i as int);
        }
        return Err(ParserError::UnexpectedEnd);
    }
    match &tokens[i + 1] {
        Token::To => (),
        _ => {
            let err = ParserError::UnexpectedToken {
                expected: Token::To,
                received: dup_token(&tokens[i + 1]),
            };
            proof {
                spec_parse_set_bad_keyword(t, i as int);
            }
            return Err(err);
        },
    }
    if i + 2 >= tokens.len() {
        proof {
            spec_parse_set_end_after_keyword(t, i as int);
        }
        return Err(ParserError::UnexpectedEnd);
    }
    let (e, j) = match parse_expr(tokens, i + 2) {
        Ok(x) => x,
        Err(e) => {
            proof {
                spec_parse_set_expr_err(t, i as int, e.deep_view());
            }
            return Err(e);
        },
    };
    if j >= tokens.len() {
        proof {
            spec_parse_set_end_after_expr(t, i as int, e.deep_view(), j as int);
        }
        return Err(ParserError::UnexpectedEnd);
    }
    match &tokens[j] {
        Token::Semicolon => {
            let st = Statement::SetTo(SetTo { variable, expr: e });
            proof {
                spec_parse_set_done(t, i as int, st->SetTo_0.variable@, e.deep_view(), j as int);
            }
            Ok((st, j + 1))
        },
        _ => {
            let err = ParserError::UnexpectedToken {
                expected: Token::Semicolon,
                received: dup_token(&tokens[j]),
            };
            proof {
                spec_parse_set_no_semicolon(t, i as int, e.deep_view(), j as int);
            }
            Err(err)
        },
    }
}

/// Parses the rest of a `print` statement, after its keyword.
#[verifier::rlimit(100)]
fn parse_print(tokens: &Vec<Token>, i: usize) -> (r: Result<(Statement, usize), ParserError>)
    ensures
        match r {
            Ok((st, j)) => spec_parse_print(tokens.deep_view(), i as int) == Ok::<
                (StatementV, int),
                ParserErrorV,
            >((st.deep_view(), j as int)) && i < j <= tokens.len(),
            Err(e) => spec_parse_print(tokens.deep_view(), i as int) == Err::<
                (StatementV, int),
                ParserErrorV,
            >(e.deep_view()),
        },
    decreases tokens.len() - i, 7int,
{
    let ghost t = tokens.deep_view();
    if i >= tokens.len() {
        proof {
            assert(spec_parse_print(t, i as int) == Err::<(StatementV, int), ParserErrorV>(
                ParserErrorV::UnexpectedEnd,
            )) by {
                reveal(spec_parse_print);
            }
        }
        return Err(ParserError::UnexpectedEnd);
    }
    let (e, j) = match parse_expr(tokens, i) {
        Ok(x) => x,
        Err(e) => {
            proof {
                assert(spec_parse_print(t, i as int) == Err::<(StatementV, int), ParserErrorV>(
                    e.deep_view(),
                )) by {
                    reveal(spec_parse_print);
                    reveal(spec_parse_expr);
                }
            }
            return Err(e);
        },
    };
    if j >= tokens.len() {
        proof {
            assert(spec_parse_print(t, i as int) == Err::<(StatementV, int), ParserErrorV>(
                ParserErrorV::UnexpectedEnd,
            )) by {
                reveal(spec_parse_print);
                reveal(spec_parse_expr);
            }
        }
        return Err(ParserError::UnexpectedEnd);
    }
    match &tokens[j] {
        Token::Semicolon => {
            let st = Statement::Print(Print { expr: e });
            proof {
                assert(spec_parse_print(t, i as int) == Ok::<(StatementV, int), ParserErrorV>(
                    (st.deep_view(), j as int + 1),
                )) by {
                    reveal(spec_parse_print);
                    reveal(spec_parse_expr);
                }
            }
            Ok((st, j + 1))
        },
        _ => {
            let err = ParserError::UnexpectedToken {
                expected: Token::Semicolon,
                received: dup_token(&tokens[j]),
            };
            proof {
                assert(spec_parse_print(t, i as int) == Err::<(StatementV, int), ParserErrorV>(
                    err.deep_view(),
                )) by {
                    reveal(spec_parse_print);
                    reveal(spec_parse_expr);
                }
            }
            Err(err)
        },
    }
}

/// Parses the rest of a `rep` statement, after its keyword.
fn parse_rep(tokens: &Vec<Token>, i: usize) -> (r: Result<(Statement, usize), ParserError>)
    ensures
        match r {
            Ok((st, j)) => spec_parse_rep(tokens.deep_view(), i as int) == Ok::<
                (StatementV, int),
                ParserErrorV,
            >((st.deep_view(), j as int)) && i < j <= tokens.len(),
            Err(e) => spec_parse_rep(tokens.deep_view(), i as int) == Err::<
                (StatementV, int),
                ParserErrorV,
            >(e.deep_view()),
        },
    decreases tokens.len() - i, 7int,
{
    proof {
        reveal(spec_parse_rep);
        reveal(spec_parse_expr);
        reveal(spec_parse_block);
    }
    if i >= tokens.len() {
        return Err(ParserError::UnexpectedEnd);
    }
    let (e, j) = match parse_expr(tokens, i) {
        Ok(x) => x,
        Err(e) => {
            return Err(e);
        },
    };
    if j >= tokens.len() {
        return Err(ParserError::UnexpectedEnd);
    }
    match parse_block(tokens, j, true) {
        Ok((b, k)) => Ok((Statement::Rep(Rep { expr: e, block: b }), k)),
        Err(e) => Err(e),
    }
}

/// Parses one statement at position `i`, dispatching on its leading
/// keyword.
fn parse_statement(tokens: &Vec<Token>, i: usize) -> (r: Result<(Statement, usize), ParserError>)
    ensures
        match r {
            Ok((st, j)) => spec_parse_statement(tokens.deep_view(), i as int) == Ok::<
                (StatementV, int),
                ParserErrorV,
            >((st.deep_view(), j as int)) && i < j <= tokens.len(),
            Err(e) => spec_parse_statement(tokens.deep_view(), i as int) == Err::<
                (StatementV, int),
                ParserErrorV,
            >(e.deep_view()),
        },
    decreases tokens.len() - i, 8int,
{
    proof {
        reveal(spec_parse_statement);
        reveal(spec_parse_let);
        reveal(spec_parse_set);
        reveal(spec_parse_rep);
        reveal(spec_parse_print);
    }
    if i >= tokens.len() {
        return Err(ParserError::UnexpectedEnd);
    }
    match &tokens[i] {
        Token::Let => parse_let_be(tokens, i + 1),
        Token::SetKw => parse_set_to(tokens, i + 1),
        Token::Rep => parse_rep(tokens, i + 1),
        Token::Print => parse_print(tokens, i + 1),
        _ => Err(ParserError::InvalidToken(dup_token(&tokens[i]))),
    }
}

/// Holds while statement parsing stands at position `cur` with the
/// statements `done` already parsed from position `i` on: the whole
/// sequence's result is `done` followed by whatever parsing from `cur`
/// yields, and any error from `cur` on is the whole sequence's error.
pub open spec fn stmts_step(
    t: Seq<TokenV>,
    i: int,
    cur: int,
    done: Seq<StatementV>,
    braced: bool,
) -> bool {
    match spec_parse_stmts(t, cur, braced) {
        Ok((rest, k)) => spec_parse_stmts(t, i, braced) == Ok::<
            (Seq<StatementV>, int),
            ParserErrorV,
        >((done + rest, k)),
        Err(e) => spec_parse_stmts(t, i, braced) == Err::<(Seq<StatementV>, int), ParserErrorV>(e),
    }
}

proof fn lemma_stmts_cons_step(
    t: Seq<TokenV>,
    i: int,
    cur: int,
    k: int,
    st: StatementV,
    done: Seq<StatementV>,
    braced: bool,
)
    requires
        stmts_step(t, i, cur, done, braced),
        spec_parse_stmts(t, cur, braced) == cons_stmt(st, spec_parse_stmts(t, k, braced)),
    ensures
        stmts_step(t, i, k, done.push(st), braced),
{
    match spec_parse_stmts(t, k, braced) {
        Ok((rest, _)) => {
            assert(done + (seq![st] + rest) =~= done.push(st) + rest);
        },
        Err(_) => {},
    }
}

/// Parses statements in sequence from position `i`.
fn parse_stmts(tokens: &Vec<Token>, i: usize, braced: bool) -> (r: Result<
    (Vec<Statement>, usize),
    ParserError,
>)
    requires
        i <= tokens.len(),
    ensures
        match r {
            Ok((sv, j)) => spec_parse_stmts(tokens.deep_view(), i as int, braced) == Ok::<
                (Seq<StatementV>, int),
                ParserErrorV,
            >((sv.deep_view(), j as int)) && i <= j <= tokens.len(),
            Err(e) => spec_parse_stmts(tokens.deep_view(), i as int, braced) == Err::<
                (Seq<StatementV>, int),
                ParserErrorV,
            >(e.deep_view()),
        },
    decreases tokens.len() - i, 9int,
{
    let ghost t = tokens.deep_view();
    let mut stmts: Vec<Statement> = Vec::new();
    let mut cur = i;
    proof {
        assert(stmts.deep_view() =~= Seq::<StatementV>::empty());
        if spec_parse_stmts(t, i as int, braced) is Ok {
            let (rest, _) = spec_parse_stmts(t, i as int, braced)->Ok_0;
            assert(Seq::<StatementV>::empty() + rest =~= rest);
        }
    }
    loop
        invariant
            t == tokens.deep_view(),
            t.len() == tokens.len(),
            i <= cur <= tokens.len(),
            stmts_step(t, i as int, cur as int, stmts.deep_view(), braced),
        decreases tokens.len() - cur,
    {
        proof {
            reveal(spec_parse_stmts);
            reveal(spec_parse_statement);
        }
        if braced {
            if cur >= tokens.len() {
                return Err(ParserError::UnexpectedEnd);
            }
            match &tokens[cur] {
                Token::RBrace => {
                    proof {
                        if spec_parse_stmts(t, cur as int, braced) is Ok {
                            let (rest, _) = spec_parse_stmts(t, cur as int, braced)->Ok_0;
                            assert(stmts.deep_view() + rest =~= stmts.deep_view());
                        }
                    }
                    return Ok((stmts, cur + 1));
                },
                _ => (),
            }
        } else {
            if cur >= tokens.len() {
                proof {
                    if spec_parse_stmts(t, cur as int, braced) is Ok {
                        let (rest, _) = spec_parse_stmts(t, cur as int, braced)->Ok_0;
                        assert(stmts.deep_view() + rest =~= stmts.deep_view());
                    }
                }
                return Ok((stmts, cur));
            }
        }
        match parse_statement(tokens, cur) {
            Err(e) => {
                return Err(e);
            },
            Ok((st, j)) => {
                let ghost done = stmts.deep_view();
                let ghost stv = st.deep_view();
                stmts.push(st);
                proof {
                    lemma_stmts_cons_step(t, i as int, cur as int, j as int, stv, done, braced);
                    assert(stmts.deep_view() =~= done.push(stv));
                }
                cur = j;
            },
        }
    }
}

/// Parses one block at position `i`: brace-delimited when `braced`, to end
/// of input otherwise.
fn parse_block(tokens: &Vec<Token>, i: usize, braced: bool) -> (r: Result<
    (Block, usize),
    ParserError,
>)
    requires
        i <= tokens.len(),
    ensures
        match r {
            Ok((b, j)) => spec_parse_block(tokens.deep_view(), i as int, braced) == Ok::<
                (BlockV, int),
                ParserErrorV,
            >((b.deep_view(), j as int)) && i <= j <= tokens.len() && (braced ==> i < j),
            Err(e) => spec_parse_block(tokens.deep_view(), i as int, braced) == Err::<
                (BlockV, int),
                ParserErrorV,
            >(e.deep_view()),
        },
    decreases tokens.len() - i, 10int,
{
    proof {
        reveal(spec_parse_block);
        reveal(spec_parse_stmts);
    }
    if braced {
        if i >= tokens.len() {
            return Err(ParserError::UnexpectedEnd);
        }
        match &tokens[i] {
            Token::LBrace => (),
            _ => {
                return Err(
                    ParserError::UnexpectedToken {
                        expected: Token::LBrace,
                        received: dup_token(&tokens[i]),
                    },
                );
            },
        }
        match parse_stmts(tokens, i + 1, true) {
            Ok((sv, j)) => {
                let b = Block { statements: sv };
                proof {
                    lemma_view_statements_is_map(b.statements@, b.statements@.len() as int);
                    assert(view_block(b).statements =~= b.statements.deep_view());
                }
                Ok((b, j))
            },
            Err(e) => Err(e),
        }
    } else {
        match parse_stmts(tokens, i, false) {
            Ok((sv, j)) => {
                let b = Block { statements: sv };
                proof {
                    lemma_view_statements_is_map(b.statements@, b.statements@.len() as int);
                    assert(view_block(b).statements =~= b.statements.deep_view());
                }
                Ok((b, j))
            },
            Err(e) => Err(e),
        }
    }
}

/// Parses a whole token sequence into a program, or reports the first
/// parse error; no partial tree is returned on error.
pub fn parse_program(tokens: Vec<Token>) -> (r: Result<Program, ParserError>)
    ensures
        match r {
            Ok(p) => spec_parse_program(tokens.deep_view()) == Ok::<ProgramV, ParserErrorV>(
                p.deep_view(),
            ),
            Err(e) => spec_parse_program(tokens.deep_view()) == Err::<ProgramV, ParserErrorV>(
                e.deep_view(),
            ),
        },
{
    match parse_block(&tokens, 0, false) {
        Ok((b, _)) => Ok(Program { block: b }),
        Err(e) => Err(e),
    }
}

} // verus!
