//! The semantic analyzer: a single forward pass over the tree that checks
//! variable declaration and use.
//!
//! The symbol table is a list of declared names, created fresh for each
//! validation and threaded through the traversal. A `let` anywhere but the
//! outermost block is always rejected — the language permits declarations
//! only there, so the scope check comes before every other check; at the
//! outermost block a `let` of a name already declared is rejected. A `set`
//! or a read of a name not in the table is rejected. A `rep` validates its
//! count expression, then its nested block with declarations disallowed,
//! against the same table. Validation stops at the first violation.

use vstd::prelude::*;
use crate::ast::{
    Block, BlockV, Comp, CompV, Expr, ExprV, Fact, FactV, LetBe, LetBeV, Prim, PrimV, Print,
    PrintV, Program, ProgramV, Rep, RepV, Sent, SentV, SetTo, SetToV, Statement, StatementV, Term,
    TermV,
    lemma_view_statements_is_map,
};

verus! {

/// A validation failure. Validation aborts at the first failure.
#[derive(Debug, Clone, PartialEq)]
pub enum SemanticAnalyzerError {
    /// A `let` of a name that is already declared.
    RedeclaredVariable(String),
    /// A use (read or `set` target) of a name that is not declared.
    UndeclaredVariable(String),
    /// A `let` anywhere but the outermost block.
    DeclaredLocalVariable(String),
}

/// Model of [`SemanticAnalyzerError`].
pub enum SemanticAnalyzerErrorV {
    RedeclaredVariable(Seq<char>),
    UndeclaredVariable(Seq<char>),
    DeclaredLocalVariable(Seq<char>),
}

impl DeepView for SemanticAnalyzerError {
    type V = SemanticAnalyzerErrorV;

    open spec fn deep_view(&self) -> SemanticAnalyzerErrorV {
        match self {
            SemanticAnalyzerError::RedeclaredVariable(x) => {
                SemanticAnalyzerErrorV::RedeclaredVariable(x@)
            },
            SemanticAnalyzerError::UndeclaredVariable(x) => {
                SemanticAnalyzerErrorV::UndeclaredVariable(x@)
            },
            SemanticAnalyzerError::DeclaredLocalVariable(x) => {
                SemanticAnalyzerErrorV::DeclaredLocalVariable(x@)
            },
        }
    }
}

/* The spec-level analyzer. Tables are name lists in declaration order. */

/// Validates a primary against the table.
pub open spec fn spec_validate_prim(p: PrimV, tbl: Seq<Seq<char>>) -> Result<
    (),
    SemanticAnalyzerErrorV,
>
    decreases p,
{
    match p {
        PrimV::Expr(e) => spec_validate_expr(*e, tbl),
        PrimV::Constant(_) => Ok(()),
        PrimV::Variable(x) => {
            if tbl.contains(x) {
                Ok(())
            } else {
                Err(SemanticAnalyzerErrorV::UndeclaredVariable(x))
            }
        },
    }
}

/// Validates a unary level against the table.
pub open spec fn spec_validate_fact(f: FactV, tbl: Seq<Seq<char>>) -> Result<
    (),
    SemanticAnalyzerErrorV,
>
    decreases f,
{
    match f {
        FactV::Is(p) => spec_validate_prim(p, tbl),
        FactV::Not(p) => spec_validate_prim(p, tbl),
        FactV::Pos(p) => spec_validate_prim(p, tbl),
        FactV::Neg(p) => spec_validate_prim(p, tbl),
        FactV::Prim(p) => spec_validate_prim(p, tbl),
    }
}

/// Validates a multiplicative level against the table, left to right.
pub open spec fn spec_validate_term(t: TermV, tbl: Seq<Seq<char>>) -> Result<
    (),
    SemanticAnalyzerErrorV,
>
    decreases t,
{
    match t {
        TermV::Mul(l, r) => match spec_validate_term(*l, tbl) {
            Err(e) => Err(e),
            Ok(()) => spec_validate_fact(r, tbl),
        },
        TermV::Div(l, r) => match spec_validate_term(*l, tbl) {
            Err(e) => Err(e),
            Ok(()) => spec_validate_fact(r, tbl),
        },
        TermV::Fact(f) => spec_validate_fact(f, tbl),
    }
}

/// Validates an additive level against the table, left to right.
pub open spec fn spec_validate_comp(c: CompV, tbl: Seq<Seq<char>>) -> Result<
    (),
    SemanticAnalyzerErrorV,
>
    decreases c,
{
    match c {
        CompV::Add(l, r) => match spec_validate_comp(*l, tbl) {
            Err(e) => Err(e),
            Ok(()) => spec_validate_term(r, tbl),
        },
        CompV::Sub(l, r) => match spec_validate_comp(*l, tbl) {
            Err(e) => Err(e),
            Ok(()) => spec_validate_term(r, tbl),
        },
        CompV::Term(t) => spec_validate_term(t, tbl),
    }
}

/// Validates a comparison level against the table, left to right.
pub open spec fn spec_validate_sent(s: SentV, tbl: Seq<Seq<char>>) -> Result<
    (),
    SemanticAnalyzerErrorV,
>
    decreases s,
{
    match s {
        SentV::Equals(l, r) => match spec_validate_sent(*l, tbl) {
            Err(e) => Err(e),
            Ok(()) => spec_validate_comp(r, tbl),
        },
        SentV::Greater(l, r) => match spec_validate_sent(*l, tbl) {
            Err(e) => Err(e),
            Ok(()) => spec_validate_comp(r, tbl),
        },
        SentV::Less(l, r) => match spec_validate_sent(*l, tbl) {
            Err(e) => Err(e),
            Ok(()) => spec_validate_comp(r, tbl),
        },
        SentV::Comp(c) => spec_validate_comp(c, tbl),
    }
}

/// Validates a full expression against the table, left to right.
pub open spec fn spec_validate_expr(e: ExprV, tbl: Seq<Seq<char>>) -> Result<
    (),
    SemanticAnalyzerErrorV,
>
    decreases e,
{
    match e {
        ExprV::And(l, r) => match spec_validate_expr(*l, tbl) {
            Err(x) => Err(x),
            Ok(()) => spec_validate_sent(r, tbl),
        },
        ExprV::Or(l, r) => match spec_validate_expr(*l, tbl) {
            Err(x) => Err(x),
            Ok(()) => spec_validate_sent(r, tbl),
        },
        ExprV::Sent(s) => spec_validate_sent(s, tbl),
    }
}

/// Validates a declaration: the scope must be the outermost block — a
/// declaration anywhere else is always rejected as local, before any other
/// check — the name must be new, and the initializer valid against the
/// table without the name. On success the name is appended to the table.
pub open spec fn spec_validate_let(l: LetBeV, tbl: Seq<Seq<char>>, global: bool) -> Result<
    Seq<Seq<char>>,
    SemanticAnalyzerErrorV,
> {
    if !global {
        Err(SemanticAnalyzerErrorV::DeclaredLocalVariable(l.variable))
    } else if tbl.contains(l.variable) {
        Err(SemanticAnalyzerErrorV::RedeclaredVariable(l.variable))
    } else {
        match spec_validate_expr(l.expr, tbl) {
            Err(e) => Err(e),
            Ok(()) => Ok(tbl.push(l.variable)),
        }
    }
}

/// Validates a reassignment: the target must be declared.
pub open spec fn spec_validate_set(s: SetToV, tbl: Seq<Seq<char>>) -> Result<
    Seq<Seq<char>>,
    SemanticAnalyzerErrorV,
> {
    if !tbl.contains(s.variable) {
        Err(SemanticAnalyzerErrorV::UndeclaredVariable(s.variable))
    } else {
        match spec_validate_expr(s.expr, tbl) {
            Err(e) => Err(e),
            Ok(()) => Ok(tbl),
        }
    }
}

/// Validates a print statement's expression.
pub open spec fn spec_validate_print(p: PrintV, tbl: Seq<Seq<char>>) -> Result<
    Seq<Seq<char>>,
    SemanticAnalyzerErrorV,
> {
    match spec_validate_expr(p.expr, tbl) {
        Err(e) => Err(e),
        Ok(()) => Ok(tbl),
    }
}

/// Validates a loop: its count expression, then its nested block against
/// the same table with declarations disallowed.
pub open spec fn spec_validate_rep(r: RepV, tbl: Seq<Seq<char>>) -> Result<
    Seq<Seq<char>>,
    SemanticAnalyzerErrorV,
>
    decreases r, 0int,
{
    match spec_validate_expr(r.expr, tbl) {
        Err(e) => Err(e),
        Ok(()) => spec_validate_stmts_from(r.block.statements, 0, tbl, false),
    }
}

/// Validates one statement, returning the table that the statements after
/// it are validated against.
pub open spec fn spec_validate_statement(
    st: StatementV,
    tbl: Seq<Seq<char>>,
    global: bool,
) -> Result<Seq<Seq<char>>, SemanticAnalyzerErrorV>
    decreases st, 1int,
{
    match st {
        StatementV::LetBe(l) => spec_validate_let(l, tbl, global),
        StatementV::SetTo(s) => spec_validate_set(s, tbl),
        StatementV::Rep(r) => spec_validate_rep(r, tbl),
        StatementV::Print(p) => spec_validate_print(p, tbl),
    }
}

/// Validates the statements from position `k` on, threading the table.
pub open spec fn spec_validate_stmts_from(
    stmts: Seq<StatementV>,
    k: int,
    tbl: Seq<Seq<char>>,
    global: bool,
) -> Result<Seq<Seq<char>>, SemanticAnalyzerErrorV>
    decreases stmts, stmts.len() - k,
{
    if k < 0 || stmts.len() <= k {
        Ok(tbl)
    } else {
        match spec_validate_statement(stmts[k], tbl, global) {
            Err(e) => Err(e),
            Ok(t2) => spec_validate_stmts_from(stmts, k + 1, t2, global),
        }
    }
}

/// Validates a whole program: its statements in order, against a table
/// that starts empty, with declarations allowed only at the top level.
pub open spec fn spec_validate_program(p: ProgramV) -> Result<(), SemanticAnalyzerErrorV> {
    match spec_validate_stmts_from(p.block.statements, 0, Seq::empty(), true) {
        Ok(_) => Ok(()),
        Err(e) => Err(e),
    }
}


/* Scope enforcement, stated as laws. */

/// Whether any statement from position `k` on, at any nesting depth,
/// declares a variable.
pub open spec fn statement_has_let(st: StatementV) -> bool
    decreases st, 0int,
{
    match st {
        StatementV::LetBe(_) => true,
        StatementV::SetTo(_) => false,
        StatementV::Rep(r) => stmts_have_let(r.block.statements, 0),
        StatementV::Print(_) => false,
    }
}

/// Whether the statements from position `k` on, at any nesting depth,
/// declare a variable.
pub open spec fn stmts_have_let(stmts: Seq<StatementV>, k: int) -> bool
    decreases stmts, stmts.len() - k,
{
    if k < 0 || stmts.len() <= k {
        false
    } else {
        statement_has_let(stmts[k]) || stmts_have_let(stmts, k + 1)
    }
}

/// Whether every loop among the statements from `k` on carries a body
/// free of declarations, at any depth.
pub open spec fn stmts_reps_letless(stmts: Seq<StatementV>, k: int) -> bool
    decreases stmts.len() - k,
{
    if k < 0 || stmts.len() <= k {
        true
    } else {
        (match stmts[k] {
            StatementV::Rep(r) => !stmts_have_let(r.block.statements, 0),
            _ => true,
        }) && stmts_reps_letless(stmts, k + 1)
    }
}

/// Away from the outermost block, a declaration is always rejected: a
/// statement sequence that validates with declarations disallowed holds no
/// `let` at any depth.
pub proof fn lemma_nonglobal_validation_bars_lets(
    stmts: Seq<StatementV>,
    k: int,
    tbl: Seq<Seq<char>>,
)
    requires
        spec_validate_stmts_from(stmts, k, tbl, false) is Ok,
    ensures
        !stmts_have_let(stmts, k),
    decreases stmts, stmts.len() - k, 1int,
{
    if 0 <= k < stmts.len() {
        let st = stmts[k];
        match spec_validate_statement(st, tbl, false) {
            Ok(t2) => {
                lemma_nonglobal_statement_bars_lets(st, tbl);
                lemma_nonglobal_validation_bars_lets(stmts, k + 1, t2);
            },
            Err(_) => {},
        }
    }
}

/// Away from the outermost block, a single statement that validates holds
/// no `let` at any depth.
pub proof fn lemma_nonglobal_statement_bars_lets(st: StatementV, tbl: Seq<Seq<char>>)
    requires
        spec_validate_statement(st, tbl, false) is Ok,
    ensures
        !statement_has_let(st),
    decreases st, 0int,
{
    match st {
        StatementV::Rep(r) => {
            lemma_nonglobal_validation_bars_lets(r.block.statements, 0, tbl);
        },
        _ => {},
    }
}

/// Scope enforcement, first clause: a program that validates has no `let`
/// inside any `rep` block, at any depth. Contrapositively, a `let` inside
/// a loop body always makes validation fail.
pub proof fn lemma_validated_program_has_no_nested_let(
    stmts: Seq<StatementV>,
    k: int,
    tbl: Seq<Seq<char>>,
)
    requires
        spec_validate_stmts_from(stmts, k, tbl, true) is Ok,
    ensures
        stmts_reps_letless(stmts, k),
    decreases stmts.len() - k,
{
    if 0 <= k < stmts.len() {
        let st = stmts[k];
        match spec_validate_statement(st, tbl, true) {
            Ok(t2) => {
                match st {
                    StatementV::Rep(r) => {
                        match spec_validate_expr(r.expr, tbl) {
                            Ok(()) => {
                                lemma_nonglobal_validation_bars_lets(r.block.statements, 0, tbl);
                            },
                            Err(_) => {},
                        }
                    },
                    _ => {},
                }
                lemma_validated_program_has_no_nested_let(stmts, k + 1, t2);
            },
            Err(_) => {},
        }
    }
}

/// Scope enforcement, second clause: a use of an undeclared name — as a
/// read or as a `set` target — is rejected with exactly
/// `UndeclaredVariable` carrying that name.
pub proof fn lemma_undeclared_use_is_rejected(x: Seq<char>, e: ExprV, tbl: Seq<Seq<char>>)
    requires
        !tbl.contains(x),
    ensures
        spec_validate_prim(PrimV::Variable(x), tbl) == Err::<(), SemanticAnalyzerErrorV>(
            SemanticAnalyzerErrorV::UndeclaredVariable(x),
        ),
        spec_validate_set(SetToV { variable: x, expr: e }, tbl) == Err::<
            Seq<Seq<char>>,
            SemanticAnalyzerErrorV,
        >(SemanticAnalyzerErrorV::UndeclaredVariable(x)),
{
}

/// Scope enforcement, third clause: at the outermost block a second
/// declaration of an already declared name is rejected with exactly
/// `RedeclaredVariable` carrying that name, whatever its initializer.
pub proof fn lemma_redeclaration_is_rejected(x: Seq<char>, e: ExprV, tbl: Seq<Seq<char>>)
    requires
        tbl.contains(x),
    ensures
        spec_validate_let(LetBeV { variable: x, expr: e }, tbl, true) == Err::<
            Seq<Seq<char>>,
            SemanticAnalyzerErrorV,
        >(SemanticAnalyzerErrorV::RedeclaredVariable(x)),
{
}

/// Scope enforcement, first clause at a single declaration: a `let` away
/// from the outermost block is always rejected with exactly
/// `DeclaredLocalVariable` carrying its name, whatever its initializer and
/// whether or not the name is already declared.
pub proof fn lemma_local_declaration_is_rejected(x: Seq<char>, e: ExprV, tbl: Seq<Seq<char>>)
    ensures
        spec_validate_let(LetBeV { variable: x, expr: e }, tbl, false) == Err::<
            Seq<Seq<char>>,
            SemanticAnalyzerErrorV,
        >(SemanticAnalyzerErrorV::DeclaredLocalVariable(x)),
{
}


/// Away from the outermost block no statement can declare, so validation
/// there never grows the symbol table: nested blocks read and write what
/// was declared before the loop, and add nothing.
pub proof fn lemma_nonglobal_validation_keeps_table(
    stmts: Seq<StatementV>,
    k: int,
    tbl: Seq<Seq<char>>,
)
    requires
        spec_validate_stmts_from(stmts, k, tbl, false) is Ok,
    ensures
        spec_validate_stmts_from(stmts, k, tbl, false) == Ok::<
            Seq<Seq<char>>,
            SemanticAnalyzerErrorV,
        >(tbl),
    decreases stmts, stmts.len() - k, 1int,
{
    if 0 <= k < stmts.len() {
        let st = stmts[k];
        match spec_validate_statement(st, tbl, false) {
            Ok(t2) => {
                lemma_nonglobal_statement_keeps_table(st, tbl);
                lemma_nonglobal_validation_keeps_table(stmts, k + 1, t2);
            },
            Err(_) => {},
        }
    }
}

/// Away from the outermost block a single statement that validates
/// returns the table unchanged.
pub proof fn lemma_nonglobal_statement_keeps_table(st: StatementV, tbl: Seq<Seq<char>>)
    requires
        spec_validate_statement(st, tbl, false) is Ok,
    ensures
        spec_validate_statement(st, tbl, false) == Ok::<Seq<Seq<char>>, SemanticAnalyzerErrorV>(
            tbl,
        ),
    decreases st, 0int,
{
    match st {
        StatementV::Rep(r) => {
            match spec_validate_expr(r.expr, tbl) {
                Ok(()) => {
                    lemma_nonglobal_validation_keeps_table(r.block.statements, 0, tbl);
                },
                Err(_) => {},
            }
        },
        _ => {},
    }
}


/// Whether every variable read inside a primary names a declared
/// variable.
pub open spec fn prim_reads_declared(p: PrimV, tbl: Seq<Seq<char>>) -> bool
    decreases p,
{
    match p {
        PrimV::Expr(e) => expr_reads_declared(*e, tbl),
        PrimV::Constant(_) => true,
        PrimV::Variable(x) => tbl.contains(x),
    }
}

/// Whether every variable read inside a unary level names a declared
/// variable.
pub open spec fn fact_reads_declared(f: FactV, tbl: Seq<Seq<char>>) -> bool
    decreases f,
{
    match f {
        FactV::Is(p) => prim_reads_declared(p, tbl),
        FactV::Not(p) => prim_reads_declared(p, tbl),
        FactV::Pos(p) => prim_reads_declared(p, tbl),
        FactV::Neg(p) => prim_reads_declared(p, tbl),
        FactV::Prim(p) => prim_reads_declared(p, tbl),
    }
}

/// Whether every variable read inside a multiplicative level names a
/// declared variable.
pub open spec fn term_reads_declared(t: TermV, tbl: Seq<Seq<char>>) -> bool
    decreases t,
{
    match t {
        TermV::Mul(l, r) => term_reads_declared(*l, tbl) && fact_reads_declared(r, tbl),
        TermV::Div(l, r) => term_reads_declared(*l, tbl) && fact_reads_declared(r, tbl),
        TermV::Fact(f) => fact_reads_declared(f, tbl),
    }
}

/// Whether every variable read inside an additive level names a declared
/// variable.
pub open spec fn comp_reads_declared(c: CompV, tbl: Seq<Seq<char>>) -> bool
    decreases c,
{
    match c {
        CompV::Add(l, r) => comp_reads_declared(*l, tbl) && term_reads_declared(r, tbl),
        CompV::Sub(l, r) => comp_reads_declared(*l, tbl) && term_reads_declared(r, tbl),
        CompV::Term(t) => term_reads_declared(t, tbl),
    }
}

/// Whether every variable read inside a comparison level names a declared
/// variable.
pub open spec fn sent_reads_declared(s: SentV, tbl: Seq<Seq<char>>) -> bool
    decreases s,
{
    match s {
        SentV::Equals(l, r) => sent_reads_declared(*l, tbl) && comp_reads_declared(r, tbl),
        SentV::Greater(l, r) => sent_reads_declared(*l, tbl) && comp_reads_declared(r, tbl),
        SentV::Less(l, r) => sent_reads_declared(*l, tbl) && comp_reads_declared(r, tbl),
        SentV::Comp(c) => comp_reads_declared(c, tbl),
    }
}

/// Whether every variable read inside an expression names a declared
/// variable.
pub open spec fn expr_reads_declared(e: ExprV, tbl: Seq<Seq<char>>) -> bool
    decreases e,
{
    match e {
        ExprV::And(l, r) => expr_reads_declared(*l, tbl) && sent_reads_declared(r, tbl),
        ExprV::Or(l, r) => expr_reads_declared(*l, tbl) && sent_reads_declared(r, tbl),
        ExprV::Sent(s) => sent_reads_declared(s, tbl),
    }
}

/// Scope enforcement over whole expressions: an expression validates
/// exactly when every variable it reads, at any depth, is declared.
pub proof fn lemma_expr_ok_iff_reads_declared(e: ExprV, tbl: Seq<Seq<char>>)
    ensures
        spec_validate_expr(e, tbl) is Ok <==> expr_reads_declared(e, tbl),
    decreases e, 5int,
{
    match e {
        ExprV::And(l, r) => {
            lemma_expr_ok_iff_reads_declared(*l, tbl);
            lemma_sent_ok_iff_reads_declared(r, tbl);
        },
        ExprV::Or(l, r) => {
            lemma_expr_ok_iff_reads_declared(*l, tbl);
            lemma_sent_ok_iff_reads_declared(r, tbl);
        },
        ExprV::Sent(s) => {
            lemma_sent_ok_iff_reads_declared(s, tbl);
        },
    }
}

proof fn lemma_sent_ok_iff_reads_declared(s: SentV, tbl: Seq<Seq<char>>)
    ensures
        spec_validate_sent(s, tbl) is Ok <==> sent_reads_declared(s, tbl),
    decreases s, 4int,
{
    match s {
        SentV::Equals(l, r) => {
            lemma_sent_ok_iff_reads_declared(*l, tbl);
            lemma_comp_ok_iff_reads_declared(r, tbl);
        },
        SentV::Greater(l, r) => {
            lemma_sent_ok_iff_reads_declared(*l, tbl);
            lemma_comp_ok_iff_reads_declared(r, tbl);
        },
        SentV::Less(l, r) => {
            lemma_sent_ok_iff_reads_declared(*l, tbl);
            lemma_comp_ok_iff_reads_declared(r, tbl);
        },
        SentV::Comp(c) => {
            lemma_comp_ok_iff_reads_declared(c, tbl);
        },
    }
}

proof fn lemma_comp_ok_iff_reads_declared(c: CompV, tbl: Seq<Seq<char>>)
    ensures
        spec_validate_comp(c, tbl) is Ok <==> comp_reads_declared(c, tbl),
    decreases c, 3int,
{
    match c {
        CompV::Add(l, r) => {
            lemma_comp_ok_iff_reads_declared(*l, tbl);
            lemma_term_ok_iff_reads_declared(r, tbl);
        },
        CompV::Sub(l, r) => {
            lemma_comp_ok_iff_reads_declared(*l, tbl);
            lemma_term_ok_iff_reads_declared(r, tbl);
        },
        CompV::Term(t) => {
            lemma_term_ok_iff_reads_declared(t, tbl);
        },
    }
}

proof fn lemma_term_ok_iff_reads_declared(t: TermV, tbl: Seq<Seq<char>>)
    ensures
        spec_validate_term(t, tbl) is Ok <==> term_reads_declared(t, tbl),
    decreases t, 2int,
{
    match t {
        TermV::Mul(l, r) => {
            lemma_term_ok_iff_reads_declared(*l, tbl);
            lemma_fact_ok_iff_reads_declared(r, tbl);
        },
        TermV::Div(l, r) => {
            lemma_term_ok_iff_reads_declared(*l, tbl);
            lemma_fact_ok_iff_reads_declared(r, tbl);
        },
        TermV::Fact(f) => {
            lemma_fact_ok_iff_reads_declared(f, tbl);
        },
    }
}

proof fn lemma_fact_ok_iff_reads_declared(f: FactV, tbl: Seq<Seq<char>>)
    ensures
        spec_validate_fact(f, tbl) is Ok <==> fact_reads_declared(f, tbl),
    decreases f, 1int,
{
    match f {
        FactV::Is(p) => {
            lemma_prim_ok_iff_reads_declared(p, tbl);
        },
        FactV::Not(p) => {
            lemma_prim_ok_iff_reads_declared(p, tbl);
        },
        FactV::Pos(p) => {
            lemma_prim_ok_iff_reads_declared(p, tbl);
        },
        FactV::Neg(p) => {
            lemma_prim_ok_iff_reads_declared(p, tbl);
        },
        FactV::Prim(p) => {
            lemma_prim_ok_iff_reads_declared(p, tbl);
        },
    }
}

proof fn lemma_prim_ok_iff_reads_declared(p: PrimV, tbl: Seq<Seq<char>>)
    ensures
        spec_validate_prim(p, tbl) is Ok <==> prim_reads_declared(p, tbl),
    decreases p, 0int,
{
    match p {
        PrimV::Expr(e) => {
            lemma_expr_ok_iff_reads_declared(*e, tbl);
        },
        _ => {},
    }
}


/// Whether the statements from position `k` on are well scoped against
/// the table: every declaration stands in the outermost block, declares a
/// fresh name, and its initializer reads only declared names (the name
/// itself not yet); every reassignment targets a declared name; every
/// expression reads only declared names; and every loop body is well
/// scoped with declarations disallowed against the table as it stands
/// before the loop.
pub open spec fn stmts_scoped(
    stmts: Seq<StatementV>,
    k: int,
    tbl: Seq<Seq<char>>,
    global: bool,
) -> bool
    decreases stmts, stmts.len() - k,
{
    if k < 0 || stmts.len() <= k {
        true
    } else {
        match stmts[k] {
            StatementV::LetBe(l) => global && !tbl.contains(l.variable) && expr_reads_declared(
                l.expr,
                tbl,
            ) && stmts_scoped(stmts, k + 1, tbl.push(l.variable), global),
            StatementV::SetTo(st) => tbl.contains(st.variable) && expr_reads_declared(st.expr, tbl)
                && stmts_scoped(stmts, k + 1, tbl, global),
            StatementV::Rep(r) => expr_reads_declared(r.expr, tbl) && stmts_scoped(
                r.block.statements,
                0,
                tbl,
                false,
            ) && stmts_scoped(stmts, k + 1, tbl, global),
            StatementV::Print(p) => expr_reads_declared(p.expr, tbl) && stmts_scoped(
                stmts,
                k + 1,
                tbl,
                global,
            ),
        }
    }
}

/// Whether a whole program is well scoped: its statements against a table
/// that starts empty, with declarations allowed only at the top level.
pub open spec fn program_scoped(p: ProgramV) -> bool {
    stmts_scoped(p.block.statements, 0, Seq::empty(), true)
}

/// Scope enforcement, whole: a program passes validation exactly when it
/// is well scoped — every name declared once, at the top level, before
/// its first use. This characterizes the set of accepted programs without
/// reference to error values or traversal order.
pub proof fn lemma_validate_ok_iff_scoped(p: ProgramV)
    ensures
        spec_validate_program(p) is Ok <==> program_scoped(p),
{
    lemma_validate_stmts_ok_iff_scoped(p.block.statements, 0, Seq::empty(), true);
}

proof fn lemma_validate_stmts_ok_iff_scoped(
    stmts: Seq<StatementV>,
    k: int,
    tbl: Seq<Seq<char>>,
    global: bool,
)
    ensures
        spec_validate_stmts_from(stmts, k, tbl, global) is Ok <==> stmts_scoped(
            stmts,
            k,
            tbl,
            global,
        ),
    decreases stmts, stmts.len() - k,
{
    if 0 <= k < stmts.len() {
        match stmts[k] {
            StatementV::LetBe(l) => {
                assert(spec_validate_statement(stmts[k], tbl, global) == spec_validate_let(
                    l,
                    tbl,
                    global,
                ));
                lemma_expr_ok_iff_reads_declared(l.expr, tbl);
                if global && !tbl.contains(l.variable) && spec_validate_expr(l.expr, tbl) is Ok {
                    lemma_validate_stmts_ok_iff_scoped(stmts, k + 1, tbl.push(l.variable), global);
                }
            },
            StatementV::SetTo(st) => {
                assert(spec_validate_statement(stmts[k], tbl, global) == spec_validate_set(
                    st,
                    tbl,
                ));
                lemma_expr_ok_iff_reads_declared(st.expr, tbl);
                if tbl.contains(st.variable) && spec_validate_expr(st.expr, tbl) is Ok {
                    lemma_validate_stmts_ok_iff_scoped(stmts, k + 1, tbl, global);
                }
            },
            StatementV::Rep(r) => {
                assert(spec_validate_statement(stmts[k], tbl, global) == spec_validate_rep(
                    r,
                    tbl,
                ));
                lemma_expr_ok_iff_reads_declared(r.expr, tbl);
                if spec_validate_expr(r.expr, tbl) is Ok {
                    lemma_validate_stmts_ok_iff_scoped(r.block.statements, 0, tbl, false);
                    match spec_validate_stmts_from(r.block.statements, 0, tbl, false) {
                        Ok(_) => {
                            lemma_nonglobal_validation_keeps_table(r.block.statements, 0, tbl);
                            lemma_validate_stmts_ok_iff_scoped(stmts, k + 1, tbl, global);
                        },
                        Err(_) => {},
                    }
                }
            },
            StatementV::Print(p) => {
                assert(spec_validate_statement(stmts[k], tbl, global) == spec_validate_print(
                    p,
                    tbl,
                ));
                lemma_expr_ok_iff_reads_declared(p.expr, tbl);
                if spec_validate_expr(p.expr, tbl) is Ok {
                    lemma_validate_stmts_ok_iff_scoped(stmts, k + 1, tbl, global);
                }
            },
        }
    }
}

/* The executable analyzer. */

/// Decides membership of a name in the symbol table.
fn contains_name(symbol_table: &Vec<String>, name: &String) -> (r: bool)
    ensures
        r == symbol_table.deep_view().contains(name@),
{
    let ghost tbl = symbol_table.deep_view();
    let n = symbol_table.len();
    let mut k: usize = 0;
    while k < n
        invariant
            tbl == symbol_table.deep_view(),
            n == symbol_table.len(),
            k <= n,
            tbl.len() == n,
            forall|m: int| 0 <= m < k ==> tbl[m] != name@,
        decreases n - k,
    {
        if symbol_table[k].eq(name) {
            proof {
                assert(tbl[k as int] == name@);
            }
            return true;
        }
        k = k + 1;
    }
    proof {
        assert(forall|m: int| 0 <= m < tbl.len() ==> tbl[m] != name@);
    }
    false
}

/// Validates a primary against the table.
fn validate_prim(prim: &Prim, symbol_table: &Vec<String>) -> (r: Result<
    (),
    SemanticAnalyzerError,
>)
    ensures
        match r {
            Ok(()) => spec_validate_prim(prim.deep_view(), symbol_table.deep_view()) == Ok::<
                (),
                SemanticAnalyzerErrorV,
            >(()),
            Err(e) => spec_validate_prim(prim.deep_view(), symbol_table.deep_view()) == Err::<
                (),
                SemanticAnalyzerErrorV,
            >(e.deep_view()),
        },
    decreases prim, 0int,
{
    match prim {
        Prim::Expr(e) => validate_expr(e, symbol_table),
        Prim::Constant(_) => Ok(()),
        Prim::Variable(x) => {
            if contains_name(symbol_table, x) {
                Ok(())
            } else {
                Err(SemanticAnalyzerError::UndeclaredVariable(x.clone()))
            }
        },
    }
}

/// Validates a unary level against the table.
fn validate_fact(fact: &Fact, symbol_table: &Vec<String>) -> (r: Result<
    (),
    SemanticAnalyzerError,
>)
    ensures
        match r {
            Ok(()) => spec_validate_fact(fact.deep_view(), symbol_table.deep_view()) == Ok::<
                (),
                SemanticAnalyzerErrorV,
            >(()),
            Err(e) => spec_validate_fact(fact.deep_view(), symbol_table.deep_view()) == Err::<
                (),
                SemanticAnalyzerErrorV,
            >(e.deep_view()),
        },
    decreases fact, 1int,
{
    match fact {
        Fact::Is(p) => validate_prim(p, symbol_table),
        Fact::Not(p) => validate_prim(p, symbol_table),
        Fact::Pos(p) => validate_prim(p, symbol_table),
        Fact::Neg(p) => validate_prim(p, symbol_table),
        Fact::Prim(p) => validate_prim(p, symbol_table),
    }
}

/// Validates a multiplicative level against the table, left to right.
fn validate_term(term: &Term, symbol_table: &Vec<String>) -> (r: Result<
    (),
    SemanticAnalyzerError,
>)
    ensures
        match r {
            Ok(()) => spec_validate_term(term.deep_view(), symbol_table.deep_view()) == Ok::<
                (),
                SemanticAnalyzerErrorV,
            >(()),
            Err(e) => spec_validate_term(term.deep_view(), symbol_table.deep_view()) == Err::<
                (),
                SemanticAnalyzerErrorV,
            >(e.deep_view()),
        },
    decreases term, 2int,
{
    match term {
        Term::Mul(l, r) => match validate_term(l, symbol_table) {
            Err(e) => Err(e),
            Ok(()) => validate_fact(r, symbol_table),
        },
        Term::Div(l, r) => match validate_term(l, symbol_table) {
            Err(e) => Err(e),
            Ok(()) => validate_fact(r, symbol_table),
        },
        Term::Fact(f) => validate_fact(f, symbol_table),
    }
}

/// Validates an additive level against the table, left to right.
fn validate_comp(comp: &Comp, symbol_table: &Vec<String>) -> (r: Result<
    (),
    SemanticAnalyzerError,
>)
    ensures
        match r {
            Ok(()) => spec_validate_comp(comp.deep_view(), symbol_table.deep_view()) == Ok::<
                (),
                SemanticAnalyzerErrorV,
            >(()),
            Err(e) => spec_validate_comp(comp.deep_view(), symbol_table.deep_view()) == Err::<
                (),
                SemanticAnalyzerErrorV,
            >(e.deep_view()),
        },
    decreases comp, 3int,
{
    match comp {
        Comp::Add(l, r) => match validate_comp(l, symbol_table) {
            Err(e) => Err(e),
            Ok(()) => validate_term(r, symbol_table),
        },
        Comp::Sub(l, r) => match validate_comp(l, symbol_table) {
            Err(e) => Err(e),
            Ok(()) => validate_term(r, symbol_table),
        },
        Comp::Term(t) => validate_term(t, symbol_table),
    }
}

/// Validates a comparison level against the table, left to right.
fn validate_sent(sent: &Sent, symbol_table: &Vec<String>) -> (r: Result<
    (),
    SemanticAnalyzerError,
>)
    ensures
        match r {
            Ok(()) => spec_validate_sent(sent.deep_view(), symbol_table.deep_view()) == Ok::<
                (),
                SemanticAnalyzerErrorV,
            >(()),
            Err(e) => spec_validate_sent(sent.deep_view(), symbol_table.deep_view()) == Err::<
                (),
                SemanticAnalyzerErrorV,
            >(e.deep_view()),
        },
    decreases sent, 4int,
{
    match sent {
        Sent::Equals(l, r) => match validate_sent(l, symbol_table) {
            Err(e) => Err(e),
            Ok(()) => validate_comp(r, symbol_table),
        },
        Sent::Greater(l, r) => match validate_sent(l, symbol_table) {
            Err(e) => Err(e),
            Ok(()) => validate_comp(r, symbol_table),
        },
        Sent::Less(l, r) => match validate_sent(l, symbol_table) {
            Err(e) => Err(e),
            Ok(()) => validate_comp(r, symbol_table),
        },
        Sent::Comp(c) => validate_comp(c, symbol_table),
    }
}

/// Validates a full expression against the table, left to right.
fn validate_expr(expr: &Expr, symbol_table: &Vec<String>) -> (r: Result<
    (),
    SemanticAnalyzerError,
>)
    ensures
        match r {
            Ok(()) => spec_validate_expr(expr.deep_view(), symbol_table.deep_view()) == Ok::<
                (),
                SemanticAnalyzerErrorV,
            >(()),
            Err(e) => spec_validate_expr(expr.deep_view(), symbol_table.deep_view()) == Err::<
                (),
                SemanticAnalyzerErrorV,
            >(e.deep_view()),
        },
    decreases expr, 5int,
{
    match expr {
        Expr::And(l, r) => match validate_expr(l, symbol_table) {
            Err(e) => Err(e),
            Ok(()) => validate_sent(r, symbol_table),
        },
        Expr::Or(l, r) => match validate_expr(l, symbol_table) {
            Err(e) => Err(e),
            Ok(()) => validate_sent(r, symbol_table),
        },
        Expr::Sent(s) => validate_sent(s, symbol_table),
    }
}

/// Validates a declaration and appends its name to the table on success.
fn validate_let_be(
    let_be: &LetBe,
    symbol_table: &mut Vec<String>,
    is_global_scope: bool,
) -> (r: Result<(), SemanticAnalyzerError>)
    ensures
        match r {
            Ok(()) => spec_validate_let(
                let_be.deep_view(),
                old(symbol_table).deep_view(),
                is_global_scope,
            ) == Ok::<Seq<Seq<char>>, SemanticAnalyzerErrorV>(final(symbol_table).deep_view()),
            Err(e) => spec_validate_let(
                let_be.deep_view(),
                old(symbol_table).deep_view(),
                is_global_scope,
            ) == Err::<Seq<Seq<char>>, SemanticAnalyzerErrorV>(e.deep_view())
                && *final(symbol_table) == *old(symbol_table),
        },
{
    if !is_global_scope {
        return Err(SemanticAnalyzerError::DeclaredLocalVariable(let_be.variable.clone()));
    }
    if contains_name(symbol_table, &let_be.variable) {
        return Err(SemanticAnalyzerError::RedeclaredVariable(let_be.variable.clone()));
    }
    match validate_expr(&let_be.expr, symbol_table) {
        Err(e) => {
            return Err(e);
        },
        Ok(()) => (),
    }
    let ghost before = symbol_table.deep_view();
    symbol_table.push(let_be.variable.clone());
    proof {
        assert(symbol_table.deep_view() =~= before.push(let_be.variable@));
    }
    Ok(())
}

/// Validates a reassignment against the table.
fn validate_set_to(set_to: &SetTo, symbol_table: &mut Vec<String>) -> (r: Result<
    (),
    SemanticAnalyzerError,
>)
    ensures
        *final(symbol_table) == *old(symbol_table),
        match r {
            Ok(()) => spec_validate_set(set_to.deep_view(), old(symbol_table).deep_view()) == Ok::<
                Seq<Seq<char>>,
                SemanticAnalyzerErrorV,
            >(final(symbol_table).deep_view()),
            Err(e) => spec_validate_set(set_to.deep_view(), old(symbol_table).deep_view())
                == Err::<Seq<Seq<char>>, SemanticAnalyzerErrorV>(e.deep_view()),
        },
{
    if !contains_name(symbol_table, &set_to.variable) {
        return Err(SemanticAnalyzerError::UndeclaredVariable(set_to.variable.clone()));
    }
    match validate_expr(&set_to.expr, symbol_table) {
        Err(e) => Err(e),
        Ok(()) => Ok(()),
    }
}

/// Validates a print statement's expression.
fn validate_print(print: &Print, symbol_table: &mut Vec<String>) -> (r: Result<
    (),
    SemanticAnalyzerError,
>)
    ensures
        *final(symbol_table) == *old(symbol_table),
        match r {
            Ok(()) => spec_validate_print(print.deep_view(), old(symbol_table).deep_view())
                == Ok::<Seq<Seq<char>>, SemanticAnalyzerErrorV>(final(symbol_table).deep_view()),
            Err(e) => spec_validate_print(print.deep_view(), old(symbol_table).deep_view())
                == Err::<Seq<Seq<char>>, SemanticAnalyzerErrorV>(e.deep_view()),
        },
{
    match validate_expr(&print.expr, symbol_table) {
        Err(e) => Err(e),
        Ok(()) => Ok(()),
    }
}

/// Validates a loop: its count expression, then its nested block with
/// declarations disallowed.
fn validate_rep(rep: &Rep, symbol_table: &mut Vec<String>) -> (r: Result<
    (),
    SemanticAnalyzerError,
>)
    ensures
        match r {
            Ok(()) => spec_validate_rep(rep.deep_view(), old(symbol_table).deep_view()) == Ok::<
                Seq<Seq<char>>,
                SemanticAnalyzerErrorV,
            >(final(symbol_table).deep_view()),
            Err(e) => spec_validate_rep(rep.deep_view(), old(symbol_table).deep_view()) == Err::<
                Seq<Seq<char>>,
                SemanticAnalyzerErrorV,
            >(e.deep_view()),
        },
    decreases rep, 6int,
{
    match validate_expr(&rep.expr, symbol_table) {
        Err(e) => {
            return Err(e);
        },
        Ok(()) => (),
    }
    validate_block(&rep.block, symbol_table, false)
}

/// Validates one statement, threading the table.
fn validate_statement(
    statement: &Statement,
    symbol_table: &mut Vec<String>,
    is_global_scope: bool,
) -> (r: Result<(), SemanticAnalyzerError>)
    ensures
        match r {
            Ok(()) => spec_validate_statement(
                statement.deep_view(),
                old(symbol_table).deep_view(),
                is_global_scope,
            ) == Ok::<Seq<Seq<char>>, SemanticAnalyzerErrorV>(final(symbol_table).deep_view()),
            Err(e) => spec_validate_statement(
                statement.deep_view(),
                old(symbol_table).deep_view(),
                is_global_scope,
            ) == Err::<Seq<Seq<char>>, SemanticAnalyzerErrorV>(e.deep_view()),
        },
    decreases statement, 7int,
{
    match statement {
        Statement::LetBe(l) => validate_let_be(l, symbol_table, is_global_scope),
        Statement::SetTo(s) => validate_set_to(s, symbol_table),
        Statement::Rep(r) => validate_rep(r, symbol_table),
        Statement::Print(p) => validate_print(p, symbol_table),
    }
}

/// Validates a block's statements in order, threading the table.
fn validate_block(block: &Block, symbol_table: &mut Vec<String>, is_global_scope: bool) -> (r:
    Result<(), SemanticAnalyzerError>)
    ensures
        match r {
            Ok(()) => spec_validate_stmts_from(
                block.deep_view().statements,
                0,
                old(symbol_table).deep_view(),
                is_global_scope,
            ) == Ok::<Seq<Seq<char>>, SemanticAnalyzerErrorV>(final(symbol_table).deep_view()),
            Err(e) => spec_validate_stmts_from(
                block.deep_view().statements,
                0,
                old(symbol_table).deep_view(),
                is_global_scope,
            ) == Err::<Seq<Seq<char>>, SemanticAnalyzerErrorV>(e.deep_view()),
        },
    decreases block, 8int,
{
    let ghost stmts = block.deep_view().statements;
    let ghost tbl0 = symbol_table.deep_view();
    proof {
        lemma_view_statements_is_map(block.statements@, block.statements@.len() as int);
    }
    let n = block.statements.len();
    let mut k: usize = 0;
    while k < n
        invariant
            stmts == block.deep_view().statements,
            tbl0 == old(symbol_table).deep_view(),
            n == block.statements.len(),
            stmts.len() == n,
            forall|m: int|
                0 <= m < n ==> stmts[m] == #[trigger] block.statements@[m].deep_view(),
            k <= n,
            spec_validate_stmts_from(stmts, 0, tbl0, is_global_scope) == spec_validate_stmts_from(
                stmts,
                k as int,
                symbol_table.deep_view(),
                is_global_scope,
            ),
        decreases n - k,
    {
        match validate_statement(&block.statements[k], symbol_table, is_global_scope) {
            Err(e) => {
                return Err(e);
            },
            Ok(()) => (),
        }
        k = k + 1;
    }
    Ok(())
}

/// Validates a whole program: a fresh, empty symbol table, statements in
/// order, declarations allowed only in the outermost block. On error no
/// partial verdict is returned.
pub fn validate_program(program: &Program) -> (r: Result<(), SemanticAnalyzerError>)
    ensures
        match r {
            Ok(()) => spec_validate_program(program.deep_view()) == Ok::<
                (),
                SemanticAnalyzerErrorV,
            >(()),
            Err(e) => spec_validate_program(program.deep_view()) == Err::<
                (),
                SemanticAnalyzerErrorV,
            >(e.deep_view()),
        },
{
    let mut symbol_table: Vec<String> = Vec::new();
    proof {
        assert(symbol_table.deep_view() =~= Seq::<Seq<char>>::empty());
    }
    match validate_block(&program.block, &mut symbol_table, true) {
        Err(e) => Err(e),
        Ok(()) => Ok(()),
    }
}

} // verus!
