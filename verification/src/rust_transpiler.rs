//! The Rust backend: turns a validated tree into a Rust function.
//!
//! The spec-level functions `rust_*_text` define the generated text, byte
//! for byte, and each executable function is proved to return exactly
//! that, so generation is a pure, deterministic function of the tree.
//! Declarations become `let mut` bindings, `rep` becomes a `for` loop over
//! the magnitude of its count expression, `print` uses `println!`, the
//! logic and comparison operators compare against zero and cast the
//! boolean back to an integer — `!` included, which negates truthiness to
//! `0`/`1` — and the sign-test uses `i32::signum`. The output needs no
//! outside crates.

use vstd::prelude::*;
use vstd::string::StringExecFns;
use crate::ast::{
    Block, BlockV, Comp, CompV, Expr, ExprV, Fact, FactV, Prim, PrimV, Program, ProgramV, Sent,
    SentV, Statement, StatementV, Term, TermV, lemma_view_statements_is_map,
};
use crate::numeral::int_text;
use crate::numeral::int_to_string;

verus! {

/// Text of a primary.
pub open spec fn rust_prim_text(p: PrimV) -> Seq<char>
    decreases p,
{
    match p {
        PrimV::Expr(e) => "(("@ + rust_expr_text(*e) + "))"@,
        PrimV::Constant(v) => "("@ + int_text(v) + ")"@,
        PrimV::Variable(x) => "("@ + x + ")"@,
    }
}

/// Text of a unary level.
pub open spec fn rust_fact_text(f: FactV) -> Seq<char>
    decreases f,
{
    match f {
        FactV::Is(p) => "(("@ + rust_prim_text(p) + " as i32).signum())"@,
        FactV::Not(p) => "(("@ + rust_prim_text(p) + " == 0) as i32)"@,
        FactV::Pos(p) => "("@ + rust_prim_text(p) + ")"@,
        FactV::Neg(p) => "(-"@ + rust_prim_text(p) + ")"@,
        FactV::Prim(p) => "("@ + rust_prim_text(p) + ")"@,
    }
}

/// Text of a multiplicative level.
pub open spec fn rust_term_text(t: TermV) -> Seq<char>
    decreases t,
{
    match t {
        TermV::Mul(l, r) => "("@ + rust_term_text(*l) + " * "@ + rust_fact_text(r) + ")"@,
        TermV::Div(l, r) => "("@ + rust_term_text(*l) + " / "@ + rust_fact_text(r) + ")"@,
        TermV::Fact(f) => "("@ + rust_fact_text(f) + ")"@,
    }
}

/// Text of an additive level.
pub open spec fn rust_comp_text(c: CompV) -> Seq<char>
    decreases c,
{
    match c {
        CompV::Add(l, r) => "("@ + rust_comp_text(*l) + " + "@ + rust_term_text(r) + ")"@,
        CompV::Sub(l, r) => "("@ + rust_comp_text(*l) + " - "@ + rust_term_text(r) + ")"@,
        CompV::Term(t) => "("@ + rust_term_text(t) + ")"@,
    }
}

/// Text of a comparison level.
pub open spec fn rust_sent_text(s: SentV) -> Seq<char>
    decreases s,
{
    match s {
        SentV::Equals(l, r) => "(("@ + rust_sent_text(*l) + " == "@ + rust_comp_text(r)
            + ") as i32)"@,
        SentV::Greater(l, r) => "(("@ + rust_sent_text(*l) + " > "@ + rust_comp_text(r)
            + ") as i32)"@,
        SentV::Less(l, r) => "(("@ + rust_sent_text(*l) + " < "@ + rust_comp_text(r)
            + ") as i32)"@,
        SentV::Comp(c) => "("@ + rust_comp_text(c) + ")"@,
    }
}

/// Text of a full expression.
pub open spec fn rust_expr_text(e: ExprV) -> Seq<char>
    decreases e,
{
    match e {
        ExprV::And(l, r) => "(("@ + rust_expr_text(*l) + " != 0 && "@ + rust_sent_text(r)
            + " != 0) as i32)"@,
        ExprV::Or(l, r) => "(("@ + rust_expr_text(*l) + " != 0 || "@ + rust_sent_text(r)
            + " != 0) as i32)"@,
        ExprV::Sent(s) => "("@ + rust_sent_text(s) + ")"@,
    }
}

/// Text of one statement.
pub open spec fn rust_statement_text(st: StatementV) -> Seq<char>
    decreases st, 1int,
{
    match st {
        StatementV::LetBe(l) => "let mut "@ + l.variable + " = "@ + rust_expr_text(l.expr)
            + "; "@,
        StatementV::SetTo(s) => s.variable + " = "@ + rust_expr_text(s.expr) + "; "@,
        StatementV::Rep(r) => "for _ in 0..("@ + rust_expr_text(r.expr) + " as i32).abs() "@
            + rust_block_text(r.block) + " "@,
        StatementV::Print(p) => "println!(\"{}\", "@ + rust_expr_text(p.expr) + "); "@,
    }
}

/// Text of the statements from position `k` on, in order.
pub open spec fn rust_stmts_text(stmts: Seq<StatementV>, k: int) -> Seq<char>
    decreases stmts, stmts.len() - k,
{
    if k < 0 || stmts.len() <= k {
        Seq::empty()
    } else {
        rust_statement_text(stmts[k]) + rust_stmts_text(stmts, k + 1)
    }
}

/// Text of a block: its statements inside braces.
pub open spec fn rust_block_text(b: BlockV) -> Seq<char>
    decreases b, 0int,
{
    "{ "@ + rust_stmts_text(b.statements, 0) + " }"@
}

/// Text of a whole program: a `program` function holding the translated
/// top-level block.
pub open spec fn rust_program_text(p: ProgramV) -> Seq<char> {
    "fn program() "@ + rust_block_text(p.block)
}

/// Generation is deterministic: one tree has one Rust text, so generating
/// twice from the same tree yields byte-identical programs.
pub proof fn lemma_rust_generation_deterministic(p1: ProgramV, p2: ProgramV)
    requires
        p1 == p2,
    ensures
        rust_program_text(p1) == rust_program_text(p2),
{
}

fn transpile_prim(prim: &Prim) -> (r: String)
    ensures
        r@ == rust_prim_text(prim.deep_view()),
    decreases prim, 0int,
{
    match prim {
        Prim::Expr(e) => {
            let mut s = String::from_str("((");
            s.append(transpile_expr(e).as_str());
            s.append("))");
            s
        },
        Prim::Constant(v) => {
            let mut s = String::from_str("(");
            s.append(int_to_string(*v).as_str());
            s.append(")");
            s
        },
        Prim::Variable(x) => {
            let mut s = String::from_str("(");
            s.append(x.as_str());
            s.append(")");
            s
        },
    }
}

fn transpile_fact(fact: &Fact) -> (r: String)
    ensures
        r@ == rust_fact_text(fact.deep_view()),
    decreases fact, 1int,
{
    match fact {
        Fact::Is(p) => {
            let mut s = String::from_str("((");
            s.append(transpile_prim(p).as_str());
            s.append(" as i32).signum())");
            s
        },
        Fact::Not(p) => {
            let mut s = String::from_str("((");
            s.append(transpile_prim(p).as_str());
            s.append(" == 0) as i32)");
            s
        },
        Fact::Pos(p) => {
            let mut s = String::from_str("(");
            s.append(transpile_prim(p).as_str());
            s.append(")");
            s
        },
        Fact::Neg(p) => {
            let mut s = String::from_str("(-");
            s.append(transpile_prim(p).as_str());
            s.append(")");
            s
        },
        Fact::Prim(p) => {
            let mut s = String::from_str("(");
            s.append(transpile_prim(p).as_str());
            s.append(")");
            s
        },
    }
}

fn transpile_term(term: &Term) -> (r: String)
    ensures
        r@ == rust_term_text(term.deep_view()),
    decreases term, 2int,
{
    match term {
        Term::Mul(l, rr) => {
            let mut s = String::from_str("(");
            s.append(transpile_term(l).as_str());
            s.append(" * ");
            s.append(transpile_fact(rr).as_str());
            s.append(")");
            s
        },
        Term::Div(l, rr) => {
            let mut s = String::from_str("(");
            s.append(transpile_term(l).as_str());
            s.append(" / ");
            s.append(transpile_fact(rr).as_str());
            s.append(")");
            s
        },
        Term::Fact(f) => {
            let mut s = String::from_str("(");
            s.append(transpile_fact(f).as_str());
            s.append(")");
            s
        },
    }
}

fn transpile_comp(comp: &Comp) -> (r: String)
    ensures
        r@ == rust_comp_text(comp.deep_view()),
    decreases comp, 3int,
{
    match comp {
        Comp::Add(l, rr) => {
            let mut s = String::from_str("(");
            s.append(transpile_comp(l).as_str());
            s.append(" + ");
            s.append(transpile_term(rr).as_str());
            s.append(")");
            s
        },
        Comp::Sub(l, rr) => {
            let mut s = String::from_str("(");
            s.append(transpile_comp(l).as_str());
            s.append(" - ");
            s.append(transpile_term(rr).as_str());
            s.append(")");
            s
        },
        Comp::Term(t) => {
            let mut s = String::from_str("(");
            s.append(transpile_term(t).as_str());
            s.append(")");
            s
        },
    }
}

fn transpile_sent(sent: &Sent) -> (r: String)
    ensures
        r@ == rust_sent_text(sent.deep_view()),
    decreases sent, 4int,
{
    match sent {
        Sent::Equals(l, rr) => {
            let mut s = String::from_str("((");
            s.append(transpile_sent(l).as_str());
            s.append(" == ");
            s.append(transpile_comp(rr).as_str());
            s.append(") as i32)");
            s
        },
        Sent::Greater(l, rr) => {
            let mut s = String::from_str("((");
            s.append(transpile_sent(l).as_str());
            s.append(" > ");
            s.append(transpile_comp(rr).as_str());
            s.append(") as i32)");
            s
        },
        Sent::Less(l, rr) => {
            let mut s = String::from_str("((");
            s.append(transpile_sent(l).as_str());
            s.append(" < ");
            s.append(transpile_comp(rr).as_str());
            s.append(") as i32)");
            s
        },
        Sent::Comp(c) => {
            let mut s = String::from_str("(");
            s.append(transpile_comp(c).as_str());
            s.append(")");
            s
        },
    }
}

fn transpile_expr(expr: &Expr) -> (r: String)
    ensures
        r@ == rust_expr_text(expr.deep_view()),
    decreases expr, 5int,
{
    match expr {
        Expr::And(l, rr) => {
            let mut s = String::from_str("((");
            s.append(transpile_expr(l).as_str());
            s.append(" != 0 && ");
            s.append(transpile_sent(rr).as_str());
            s.append(" != 0) as i32)");
            s
        },
        Expr::Or(l, rr) => {
            let mut s = String::from_str("((");
            s.append(transpile_expr(l).as_str());
            s.append(" != 0 || ");
            s.append(transpile_sent(rr).as_str());
            s.append(" != 0) as i32)");
            s
        },
        Expr::Sent(x) => {
            let mut s = String::from_str("(");
            s.append(transpile_sent(x).as_str());
            s.append(")");
            s
        },
    }
}

fn transpile_statement(statement: &Statement) -> (r: String)
    ensures
        r@ == rust_statement_text(statement.deep_view()),
    decreases statement, 7int,
{
    match statement {
        Statement::LetBe(l) => {
            let mut s = String::from_str("let mut ");
            s.append(l.variable.as_str());
            s.append(" = ");
            s.append(transpile_expr(&l.expr).as_str());
            s.append("; ");
            s
        },
        Statement::SetTo(st) => {
            let mut s = st.variable.clone();
            s.append(" = ");
            s.append(transpile_expr(&st.expr).as_str());
            s.append("; ");
            s
        },
        Statement::Rep(rep) => {
            let mut s = String::from_str("for _ in 0..(");
            s.append(transpile_expr(&rep.expr).as_str());
            s.append(" as i32).abs() ");
            s.append(transpile_block(&rep.block).as_str());
            s.append(" ");
            s
        },
        Statement::Print(p) => {
            let mut s = String::from_str("println!(\"{}\", ");
            s.append(transpile_expr(&p.expr).as_str());
            s.append("); ");
            s
        },
    }
}

fn transpile_block(block: &Block) -> (r: String)
    ensures
        r@ == rust_block_text(block.deep_view()),
    decreases block, 8int,
{
    let ghost stmts = block.deep_view().statements;
    proof {
        lemma_view_statements_is_map(block.statements@, block.statements@.len() as int);
    }
    let mut body = String::new();
    let n = block.statements.len();
    let mut k: usize = 0;
    proof {
        assert(body@ + rust_stmts_text(stmts, 0) =~= rust_stmts_text(stmts, 0));
    }
    while k < n
        invariant
            stmts == block.deep_view().statements,
            n == block.statements.len(),
            stmts.len() == n,
            forall|m: int|
                0 <= m < n ==> stmts[m] == #[trigger] block.statements@[m].deep_view(),
            k <= n,
            rust_stmts_text(stmts, 0) =~= body@ + rust_stmts_text(stmts, k as int),
        decreases n - k,
    {
        let ghost before = body@;
        let piece = transpile_statement(&block.statements[k]);
        body.append(piece.as_str());
        proof {
            assert(rust_stmts_text(stmts, k as int) == rust_statement_text(stmts[k as int])
                + rust_stmts_text(stmts, k as int + 1));
            assert(before + (piece@ + rust_stmts_text(stmts, k as int + 1)) =~= (before + piece@)
                + rust_stmts_text(stmts, k as int + 1));
        }
        k = k + 1;
    }
    proof {
        assert(body@ + rust_stmts_text(stmts, n as int) =~= body@);
    }
    let mut s = String::from_str("{ ");
    s.append(body.as_str());
    s.append(" }");
    s
}

/// Generates a Rust rendering of a validated tree: a pure, deterministic
/// function of the tree, which cannot fail.
pub fn transpile_program_to_rust(program: &Program) -> (r: String)
    ensures
        r@ == rust_program_text(program.deep_view()),
{
    let b = transpile_block(&program.block);
    let mut s = String::from_str("fn program() ");
    s.append(b.as_str());
    s
}

} // verus!
