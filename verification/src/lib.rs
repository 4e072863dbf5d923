//! A compiler front end for a small imperative language of integer
//! variables, arithmetic, logic, comparison, a count-controlled loop, and
//! print, together with two source-to-source code generators.
//!
//! The pipeline runs strictly forward: `lexer` turns text into tokens,
//! `parser` turns tokens into an abstract syntax tree, `semantic_analyzer`
//! checks variable declaration and use, and the two transpiler modules each
//! turn a validated tree into a program in their target language.
//! Every stage is specified by a spec-level function over mathematical
//! models of its input and output, and each executable function is proved
//! to return exactly what its spec-level counterpart describes.

pub mod token;
pub mod numeral;
pub mod ast;
pub mod lexer;
pub mod parser;
pub mod semantic_analyzer;
pub mod c_transpiler;
pub mod rust_transpiler;
