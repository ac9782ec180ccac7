//! Source-located diagnostics shared by the scanner, the parser and the
//! evaluator.

pub mod lexer_error;
pub mod syntax_error;
