//! The C backend: turns a validated tree into a complete C program.
//!
//! The spec-level functions `c_*_text` define the generated text, byte for
//! byte, and each executable function is proved to return exactly that, so
//! generation is a pure, deterministic function of the tree. Declarations
//! become `int` bindings, `rep` becomes a counted `for` loop whose bound is
//! the magnitude of its count expression, evaluated once before the first
//! iteration, `print` uses `printf`, the logic and comparison operators
//! use C's own `0`/`1`-valued operators, and the sign-test uses a `sgn`
//! helper defined once at the top of every generated program. The loop's
//! two working variables hold digits, which the language's identifiers
//! cannot, so they never capture a variable of the program.

use vstd::prelude::*;
use vstd::string::StringExecFns;
use crate::ast::{
    Block, BlockV, Comp, CompV, Expr, ExprV, Fact, FactV, Prim, PrimV, Program, ProgramV, Sent,
    SentV, Statement, StatementV, Term, TermV, lemma_view_statements_is_map,
};
use crate::numeral::int_text;
use crate::numeral::int_to_string;

verus! {

/// Text of a primary.
pub open spec fn c_prim_text(p: PrimV) -> Seq<char>
    decreases p,
{
    match p {
        PrimV::Expr(e) => "("@ + c_expr_text(*e) + ")"@,
        PrimV::Constant(v) => int_text(v),
        PrimV::Variable(x) => x,
    }
}

/// Text of a unary level.
pub open spec fn c_fact_text(f: FactV) -> Seq<char>
    decreases f,
{
    match f {
        FactV::Is(p) => "sgn("@ + c_prim_text(p) + ")"@,
        FactV::Not(p) => "(!"@ + c_prim_text(p) + ")"@,
        FactV::Pos(p) => "(+"@ + c_prim_text(p) + ")"@,
        FactV::Neg(p) => "(-"@ + c_prim_text(p) + ")"@,
        FactV::Prim(p) => c_prim_text(p),
    }
}

/// Text of a multiplicative level.
pub open spec fn c_term_text(t: TermV) -> Seq<char>
    decreases t,
{
    match t {
        TermV::Mul(l, r) => "("@ + c_term_text(*l) + " * "@ + c_fact_text(r) + ")"@,
        TermV::Div(l, r) => "("@ + c_term_text(*l) + " / "@ + c_fact_text(r) + ")"@,
        TermV::Fact(f) => c_fact_text(f),
    }
}

/// Text of an additive level.
pub open spec fn c_comp_text(c: CompV) -> Seq<char>
    decreases c,
{
    match c {
        CompV::Add(l, r) => "("@ + c_comp_text(*l) + " + "@ + c_term_text(r) + ")"@,
        CompV::Sub(l, r) => "("@ + c_comp_text(*l) + " - "@ + c_term_text(r) + ")"@,
        CompV::Term(t) => c_term_text(t),
    }
}

/// Text of a comparison level.
pub open spec fn c_sent_text(s: SentV) -> Seq<char>
    decreases s,
{
    match s {
        SentV::Equals(l, r) => "("@ + c_sent_text(*l) + " == "@ + c_comp_text(r) + ")"@,
        SentV::Greater(l, r) => "("@ + c_sent_text(*l) + " > "@ + c_comp_text(r) + ")"@,
        SentV::Less(l, r) => "("@ + c_sent_text(*l) + " < "@ + c_comp_text(r) + ")"@,
        SentV::Comp(c) => c_comp_text(c),
    }
}

/// Text of a full expression.
pub open spec fn c_expr_text(e: ExprV) -> Seq<char>
    decreases e,
{
    match e {
        ExprV::And(l, r) => "("@ + c_expr_text(*l) + " && "@ + c_sent_text(r) + ")"@,
        ExprV::Or(l, r) => "("@ + c_expr_text(*l) + " || "@ + c_sent_text(r) + ")"@,
        ExprV::Sent(s) => c_sent_text(s),
    }
}

/// Text of one statement.
pub open spec fn c_statement_text(st: StatementV) -> Seq<char>
    decreases st, 1int,
{
    match st {
        StatementV::LetBe(l) => "int "@ + l.variable + " = "@ + c_expr_text(l.expr) + "; "@,
        StatementV::SetTo(s) => s.variable + " = "@ + c_expr_text(s.expr) + "; "@,
        StatementV::Rep(r) => "for (int i0 = 0, n0 = abs("@ + c_expr_text(r.expr)
            + "); i0 < n0; ++i0) "@ + c_block_text(r.block),
        StatementV::Print(p) => "printf(\"%i\", "@ + c_expr_text(p.expr) + "); "@,
    }
}

/// Text of the statements from position `k` on, in order.
pub open spec fn c_stmts_text(stmts: Seq<StatementV>, k: int) -> Seq<char>
    decreases stmts, stmts.len() - k,
{
    if k < 0 || stmts.len() <= k {
        Seq::empty()
    } else {
        c_statement_text(stmts[k]) + c_stmts_text(stmts, k + 1)
    }
}

/// Text of a block: its statements inside braces.
pub open spec fn c_block_text(b: BlockV) -> Seq<char>
    decreases b, 0int,
{
    "{ "@ + c_stmts_text(b.statements, 0) + " }"@
}

/// Text of a whole program: the includes, the sign helper, and `main`
/// holding the translated top-level block.
pub open spec fn c_program_text(p: ProgramV) -> Seq<char> {
    "#include <stdlib.h>\n#include <stdio.h>\n\nint sgn(int x) {\n\treturn (x > 0) - (x < 0);\n}\n\nint main() "@
        + c_block_text(p.block)
}

/// Generation is deterministic: one tree has one C text, so generating
/// twice from the same tree yields byte-identical programs.
pub proof fn lemma_c_generation_deterministic(p1: ProgramV, p2: ProgramV)
    requires
        p1 == p2,
    ensures
        c_program_text(p1) == c_program_text(p2),
{
}

fn transpile_prim(prim: &Prim) -> (r: String)
    ensures
        r@ == c_prim_text(prim.deep_view()),
    decreases prim, 0int,
{
    match prim {
        Prim::Expr(e) => {
            let mut s = String::from_str("(");
            s.append(transpile_expr(e).as_str());
            s.append(")");
            s
        },
        Prim::Constant(v) => int_to_string(*v),
        Prim::Variable(x) => x.clone(),
    }
}

fn transpile_fact(fact: &Fact) -> (r: String)
    ensures
        r@ == c_fact_text(fact.deep_view()),
    decreases fact, 1int,
{
    match fact {
        Fact::Is(p) => {
            let mut s = String::from_str("sgn(");
            s.append(transpile_prim(p).as_str());
            s.append(")");
            s
        },
        Fact::Not(p) => {
            let mut s = String::from_str("(!");
            s.append(transpile_prim(p).as_str());
            s.append(")");
            s
        },
        Fact::Pos(p) => {
            let mut s = String::from_str("(+");
            s.append(transpile_prim(p).as_str());
            s.append(")");
            s
        },
        Fact::Neg(p) => {
            let mut s = String::from_str("(-");
            s.append(transpile_prim(p).as_str());
            s.append(")");
            s
        },
        Fact::Prim(p) => transpile_prim(p),
    }
}

fn transpile_term(term: &Term) -> (r: String)
    ensures
        r@ == c_term_text(term.deep_view()),
    decreases term, 2int,
{
    match term {
        Term::Mul(l, rr) => {
            let mut s = String::from_str("(");
            s.append(transpile_term(l).as_str());
            s.append(" * ");
            s.append(transpile_fact(rr).as_str());
            s.append(")");
            s
        },
        Term::Div(l, rr) => {
            let mut s = String::from_str("(");
            s.append(transpile_term(l).as_str());
            s.append(" / ");
            s.append(transpile_fact(rr).as_str());
            s.append(")");
            s
        },
        Term::Fact(f) => transpile_fact(f),
    }
}

fn transpile_comp(comp: &Comp) -> (r: String)
    ensures
        r@ == c_comp_text(comp.deep_view()),
    decreases comp, 3int,
{
    match comp {
        Comp::Add(l, rr) => {
            let mut s = String::from_str("(");
            s.append(transpile_comp(l).as_str());
            s.append(" + ");
            s.append(transpile_term(rr).as_str());
            s.append(")");
            s
        },
        Comp::Sub(l, rr) => {
            let mut s = String::from_str("(");
            s.append(transpile_comp(l).as_str());
            s.append(" - ");
            s.append(transpile_term(rr).as_str());
            s.append(")");
            s
        },
        Comp::Term(t) => transpile_term(t),
    }
}

fn transpile_sent(sent: &Sent) -> (r: String)
    ensures
        r@ == c_sent_text(sent.deep_view()),
    decreases sent, 4int,
{
    match sent {
        Sent::Equals(l, rr) => {
            let mut s = String::from_str("(");
            s.append(transpile_sent(l).as_str());
            s.append(" == ");
            s.append(transpile_comp(rr).as_str());
            s.append(")");
            s
        },
        Sent::Greater(l, rr) => {
            let mut s = String::from_str("(");
            s.append(transpile_sent(l).as_str());
            s.append(" > ");
            s.append(transpile_comp(rr).as_str());
            s.append(")");
            s
        },
        Sent::Less(l, rr) => {
            let mut s = String::from_str("(");
            s.append(transpile_sent(l).as_str());
            s.append(" < ");
            s.append(transpile_comp(rr).as_str());
            s.append(")");
            s
        },
        Sent::Comp(c) => transpile_comp(c),
    }
}

fn transpile_expr(expr: &Expr) -> (r: String)
    ensures
        r@ == c_expr_text(expr.deep_view()),
    decreases expr, 5int,
{
    match expr {
        Expr::And(l, rr) => {
            let mut s = String::from_str("(");
            s.append(transpile_expr(l).as_str());
            s.append(" && ");
            s.append(transpile_sent(rr).as_str());
            s.append(")");
            s
        },
        Expr::Or(l, rr) => {
            let mut s = String::from_str("(");
            s.append(transpile_expr(l).as_str());
            s.append(" || ");
            s.append(transpile_sent(rr).as_str());
            s.append(")");
            s
        },
        Expr::Sent(x) => transpile_sent(x),
    }
}

fn transpile_statement(statement: &Statement) -> (r: String)
    ensures
        r@ == c_statement_text(statement.deep_view()),
    decreases statement, 7int,
{
    match statement {
        Statement::LetBe(l) => {
            let mut s = String::from_str("int ");
            s.append(l.variable.as_str());
            s.append(" = ");
            s.append(transpile_expr(&l.expr).as_str());
            s.append("; ");
            s
        },
        Statement::SetTo(st) => {
            let mut s = st.variable.clone();
            s.append(" = ");
            s.append(transpile_expr(&st.expr).as_str());
            s.append("; ");
            s
        },
        Statement::Rep(rep) => {
            let mut s = String::from_str("for (int i0 = 0, n0 = abs(");
            s.append(transpile_expr(&rep.expr).as_str());
            s.append("); i0 < n0; ++i0) ");
            s.append(transpile_block(&rep.block).as_str());
            s
        },
        Statement::Print(p) => {
            let mut s = String::from_str("printf(\"%i\", ");
            s.append(transpile_expr(&p.expr).as_str());
            s.append("); ");
            s
        },
    }
}

fn transpile_block(block: &Block) -> (r: String)
    ensures
        r@ == c_block_text(block.deep_view()),
    decreases block, 8int,
{
    let ghost stmts = block.deep_view().statements;
    proof {
        lemma_view_statements_is_map(block.statements@, block.statements@.len() as int);
    }
    let mut body = String::new();
    let n = block.statements.len();
    let mut k: usize = 0;
    proof {
        assert(body@ + c_stmts_text(stmts, 0) =~= c_stmts_text(stmts, 0));
    }
    while k < n
        invariant
            stmts == block.deep_view().statements,
            n == block.statements.len(),
            stmts.len() == n,
            forall|m: int|
                0 <= m < n ==> stmts[m] == #[trigger] block.statements@[m].deep_view(),
            k <= n,
            c_stmts_text(stmts, 0) =~= body@ + c_stmts_text(stmts, k as int),
        decreases n - k,
    {
        let ghost before = body@;
        let piece = transpile_statement(&block.statements[k]);
        body.append(piece.as_str());
        proof {
            assert(c_stmts_text(stmts, k as int) == c_statement_text(stmts[k as int])
                + c_stmts_text(stmts, k as int + 1));
            assert(before + (piece@ + c_stmts_text(stmts, k as int + 1)) =~= (before + piece@)
                + c_stmts_text(stmts, k as int + 1));
        }
        k = k + 1;
    }
    proof {
        assert(body@ + c_stmts_text(stmts, n as int) =~= body@);
    }
    let mut s = String::from_str("{ ");
    s.append(body.as_str());
    s.append(" }");
    s
}

/// Generates a complete C program from a validated tree: a pure,
/// deterministic function of the tree, which cannot fail.
pub fn transpile_program_to_c(program: &Program) -> (r: String)
    ensures
        r@ == c_program_text(program.deep_view()),
{
    let b = transpile_block(&program.block);
    let mut s = String::from_str(
        "#include <stdlib.h>\n#include <stdio.h>\n\nint sgn(int x) {\n\treturn (x > 0) - (x < 0);\n}\n\nint main() ",
    );
    s.append(b.as_str());
    s
}

} // verus!
