use tinylang::ast::{Block, Comp, Expr, Fact, Integer, Prim, Print, Program, Sent, Statement, Term};
use tinylang::c_transpiler::transpile_program_to_c;
use tinylang::lexer::{tokenize_program, LexerError};
use tinylang::parser::{parse_program, ParserError};
use tinylang::rust_transpiler::transpile_program_to_rust;
use tinylang::semantic_analyzer::{validate_program, SemanticAnalyzerError};
use tinylang::token::Token;

const FIB: &str = "let n be 0; let m be 1; rep 9 { set m to m + n; set n to m - n; } print n;";

fn parsed(source: &str) -> Program {
    parse_program(tokenize_program(source).expect("lexing failed")).expect("parsing failed")
}

#[test]
fn lex_declaration() {
    let tokens = tokenize_program("let x be 1;").expect("lexing failed");
    assert_eq!(
        tokens,
        vec![
            Token::Let,
            Token::Variable("x".to_string()),
            Token::Be,
            Token::Constant(1),
            Token::Semicolon,
        ]
    );
}

#[test]
fn lex_single_character_tokens() {
    let tokens = tokenize_program("+-*/?!&|(){};=><").expect("lexing failed");
    assert_eq!(
        tokens,
        vec![
            Token::Add,
            Token::Sub,
            Token::Mul,
            Token::Div,
            Token::Is,
            Token::Not,
            Token::And,
            Token::Or,
            Token::LParen,
            Token::RParen,
            Token::LBrace,
            Token::RBrace,
            Token::Semicolon,
            Token::Equals,
            Token::Greater,
            Token::Less,
        ]
    );
}

#[test]
fn lex_skips_whitespace_and_comments() {
    let tokens = tokenize_program("  # a comment with $trange bytes\n\tprint 7 ; # tail")
        .expect("lexing failed");
    assert_eq!(
        tokens,
        vec![Token::Print, Token::Constant(7), Token::Semicolon]
    );
}

#[test]
fn lex_keywords_and_identifiers() {
    let tokens = tokenize_program("let be set to rep print letx rep_ _x").expect("lexing failed");
    assert_eq!(
        tokens,
        vec![
            Token::Let,
            Token::Be,
            Token::SetKw,
            Token::To,
            Token::Rep,
            Token::Print,
            Token::Variable("letx".to_string()),
            Token::Variable("rep_".to_string()),
            Token::Variable("_x".to_string()),
        ]
    );
}

#[test]
fn lex_digits_end_identifiers() {
    let tokens = tokenize_program("x1").expect("lexing failed");
    assert_eq!(
        tokens,
        vec![Token::Variable("x".to_string()), Token::Constant(1)]
    );
}

#[test]
fn lex_invalid_character() {
    let r = tokenize_program("let x be $;");
    assert_eq!(r, Err(LexerError::InvalidCharacter("$".to_string())));
}

#[test]
fn lex_integer_bounds() {
    assert_eq!(
        tokenize_program("2147483647"),
        Ok(vec![Token::Constant(2147483647)])
    );
    assert_eq!(
        tokenize_program("2147483648"),
        Err(LexerError::InvalidInteger)
    );
    assert_eq!(
        tokenize_program("000000000000042"),
        Ok(vec![Token::Constant(42)])
    );
}

#[test]
fn parse_fibonacci_top_level_statements() {
    // Two declarations, one loop, one print.
    let program = parsed(FIB);
    assert_eq!(program.block.statements.len(), 4);
}

#[test]
fn parse_addition_tree() {
    let program = parsed("print 1+2;");
    let expected = Program {
        block: Block {
            statements: vec![Statement::Print(Print {
                expr: Expr::Sent(Sent::Comp(Comp::Add(
                    Box::new(Comp::Term(Term::Fact(Fact::Prim(Prim::Constant(1))))),
                    Term::Fact(Fact::Prim(Prim::Constant(2))),
                ))),
            })],
        },
    };
    assert_eq!(program, expected);
}

#[test]
fn parse_is_deterministic() {
    let tokens = tokenize_program(FIB).expect("lexing failed");
    let first = parse_program(tokens.clone()).expect("parsing failed");
    let second = parse_program(tokens).expect("parsing failed");
    assert_eq!(first, second);
}

#[test]
fn parse_unexpected_end() {
    let tokens = tokenize_program("let x be").expect("lexing failed");
    assert_eq!(parse_program(tokens), Err(ParserError::UnexpectedEnd));
}

#[test]
fn parse_invalid_leading_token() {
    let tokens = tokenize_program("1;").expect("lexing failed");
    assert_eq!(
        parse_program(tokens),
        Err(ParserError::InvalidToken(Token::Constant(1)))
    );
}

#[test]
fn parse_let_with_wrong_keyword() {
    let tokens = tokenize_program("let x to 1;").expect("lexing failed");
    assert_eq!(
        parse_program(tokens),
        Err(ParserError::UnexpectedToken {
            expected: Token::Be,
            received: Token::To,
        })
    );
}

#[test]
fn parse_set_with_wrong_keyword() {
    let tokens = tokenize_program("set x be 1;").expect("lexing failed");
    assert_eq!(
        parse_program(tokens),
        Err(ParserError::UnexpectedToken {
            expected: Token::To,
            received: Token::Be,
        })
    );
}

#[test]
fn parse_missing_close_paren() {
    let tokens = tokenize_program("print (1;").expect("lexing failed");
    assert_eq!(
        parse_program(tokens),
        Err(ParserError::UnexpectedToken {
            expected: Token::RParen,
            received: Token::Semicolon,
        })
    );
}

#[test]
fn parse_one_shot_operator_chains() {
    // A third same-level operand is left unconsumed, so the statement
    // parser stumbles on the second operator where it expects `;`.
    let tokens = tokenize_program("print 1+2+3;").expect("lexing failed");
    assert_eq!(
        parse_program(tokens),
        Err(ParserError::UnexpectedToken {
            expected: Token::Semicolon,
            received: Token::Add,
        })
    );
    // Alternating levels keep every operator consumable.
    let tokens = tokenize_program("print 1*1+1*1;").expect("lexing failed");
    assert!(parse_program(tokens).is_ok());
}

#[test]
fn validate_fibonacci() {
    assert_eq!(validate_program(&parsed(FIB)), Ok(()));
}

#[test]
fn validate_nested_reads_and_writes() {
    let program = parsed("let x be 1; rep x { set x to x - 1; }");
    assert_eq!(validate_program(&program), Ok(()));
}

#[test]
fn validate_undeclared_use() {
    let program = parsed("set x to 1;");
    assert_eq!(
        validate_program(&program),
        Err(SemanticAnalyzerError::UndeclaredVariable("x".to_string()))
    );
}

#[test]
fn validate_undeclared_read() {
    let program = parsed("print y;");
    assert_eq!(
        validate_program(&program),
        Err(SemanticAnalyzerError::UndeclaredVariable("y".to_string()))
    );
}

#[test]
fn validate_self_referencing_initializer() {
    let program = parsed("let x be x;");
    assert_eq!(
        validate_program(&program),
        Err(SemanticAnalyzerError::UndeclaredVariable("x".to_string()))
    );
}

#[test]
fn validate_redeclaration() {
    let program = parsed("let x be 1; let x be 2;");
    assert_eq!(
        validate_program(&program),
        Err(SemanticAnalyzerError::RedeclaredVariable("x".to_string()))
    );
}

#[test]
fn validate_local_declaration() {
    let program = parsed("let x be 1; rep 2 { let y be 3; }");
    assert_eq!(
        validate_program(&program),
        Err(SemanticAnalyzerError::DeclaredLocalVariable("y".to_string()))
    );
}

#[test]
fn generate_c_fibonacci() {
    let program = parsed(FIB);
    let expected = "#include <stdlib.h>\n#include <stdio.h>\n\nint sgn(int x) {\n\treturn (x > 0) - (x < 0);\n}\n\nint main() { int n = 0; int m = 1; for (int i0 = 0, n0 = abs(9); i0 < n0; ++i0) { m = (m + n); n = (m - n);  }printf(\"%i\", n);  }";
    assert_eq!(transpile_program_to_c(&program), expected);
}

#[test]
fn generate_c_is_deterministic() {
    let program = parsed(FIB);
    assert_eq!(
        transpile_program_to_c(&program),
        transpile_program_to_c(&program)
    );
}

#[test]
fn generate_rust_is_deterministic() {
    let program = parsed(FIB);
    assert_eq!(
        transpile_program_to_rust(&program),
        transpile_program_to_rust(&program)
    );
}

#[test]
fn generate_c_sign_test() {
    // `?` binds to the primary alone, so the sign test applies to 0 and
    // the subtraction happens outside it.
    let program = parsed("print ?0-9;");
    let expected = "#include <stdlib.h>\n#include <stdio.h>\n\nint sgn(int x) {\n\treturn (x > 0) - (x < 0);\n}\n\nint main() { printf(\"%i\", (sgn(0) - 9));  }";
    assert_eq!(transpile_program_to_c(&program), expected);
}

#[test]
fn generate_c_negative_loop_count() {
    // The generated loop runs over the magnitude of the count expression.
    let program = parsed("rep 0 - 3 { print 1; }");
    let c = transpile_program_to_c(&program);
    assert!(c.contains("for (int i0 = 0, n0 = abs((0 - 3)); i0 < n0; ++i0)"));
    let rust = transpile_program_to_rust(&program);
    assert!(rust.contains(" as i32).abs()"));
}

#[test]
fn generate_c_negative_constant() {
    let program = Program {
        block: Block {
            statements: vec![Statement::Print(Print {
                expr: Expr::Sent(Sent::Comp(Comp::Term(Term::Fact(Fact::Prim(
                    Prim::Constant(-2147483648),
                ))))),
            })],
        },
    };
    let c = transpile_program_to_c(&program);
    assert!(c.contains("printf(\"%i\", -2147483648); "));
}

#[test]
fn generate_rust_sign_test() {
    let program = parsed("print ?0-9;");
    let rust = transpile_program_to_rust(&program);
    assert!(rust.starts_with("fn program() { "));
    assert!(rust.contains("(((0) as i32).signum())"));
    assert!(rust.ends_with(" }"));
}

#[test]
fn generate_rust_fibonacci() {
    let program = parsed(FIB);
    let rust = transpile_program_to_rust(&program);
    assert!(rust.starts_with("fn program() { let mut n = ((((((0)))))); let mut m = ((((((1)))))); "));
    assert!(rust.contains("for _ in 0..(((((((9)))))) as i32).abs() { "));
    assert!(rust.contains("println!(\"{}\", ((((((n))))))); "));
}

#[test]
fn token_and_integer_conversions() {
    assert_eq!(Token::from(5), Token::Constant(5));
    assert_eq!(
        Token::from("x".to_string()),
        Token::Variable("x".to_string())
    );
    assert_eq!(Integer::from(7), Integer { value: 7 });
}

#[test]
fn empty_source_runs_the_whole_pipeline() {
    let tokens = tokenize_program("").expect("lexing failed");
    assert_eq!(tokens, Vec::<Token>::new());
    let program = parse_program(tokens).expect("parsing failed");
    assert_eq!(program.block.statements.len(), 0);
    assert_eq!(validate_program(&program), Ok(()));
    assert!(transpile_program_to_c(&program).ends_with("int main() {  }"));
    assert_eq!(transpile_program_to_rust(&program), "fn program() {  }");
}

#[test]
fn unclosed_brace_is_unexpected_end() {
    let tokens = tokenize_program("rep 2 { print 1;").expect("lexing failed");
    assert_eq!(parse_program(tokens), Err(ParserError::UnexpectedEnd));
}

#[test]
fn stray_closing_brace_is_invalid() {
    let tokens = tokenize_program("}").expect("lexing failed");
    assert_eq!(
        parse_program(tokens),
        Err(ParserError::InvalidToken(Token::RBrace))
    );
}

#[test]
fn validate_local_redeclaration_is_still_local() {
    // Inside a loop body the scope check comes first: even a name that is
    // already declared is reported as a local declaration.
    let program = parsed("let x be 1; rep 1 { let x be 2; }");
    assert_eq!(
        validate_program(&program),
        Err(SemanticAnalyzerError::DeclaredLocalVariable("x".to_string()))
    );
}

#[test]
fn generate_not_is_logical_in_both_backends() {
    // `!` negates truthiness to 0/1 in both backends: the C output uses
    // C's logical operator, the Rust output compares against zero.
    let program = parsed("print !0;");
    let c = transpile_program_to_c(&program);
    assert!(c.contains("printf(\"%i\", (!0)); "));
    let rust = transpile_program_to_rust(&program);
    assert!(rust.contains("(((0) == 0) as i32)"));
}

#[test]
fn generate_c_loop_count_is_evaluated_once() {
    // The bound is computed into a working variable before the first
    // iteration, so writes to the count's variables inside the body do
    // not change how often it runs, and a program variable named `i` is
    // never captured.
    let program = parsed("let i be 3; rep i { set i to i - 1; }");
    let c = transpile_program_to_c(&program);
    assert!(c.contains("for (int i0 = 0, n0 = abs(i); i0 < n0; ++i0) { i = (i - 1);  }"));
}
