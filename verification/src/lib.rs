//! Front end and evaluation core of a small scripting language: a scanner
//! that turns source text into tokens, a recursive-descent parser that builds
//! a syntax tree, a tree-walking evaluator, and source-located diagnostics.
//!
//! The pipeline is source text, to tokens, to statements, to printed lines;
//! `Cedar::run` composes the three stages and `spec_run` states the whole
//! composition mathematically.

pub mod ast_printer;
pub mod error;
pub mod errors;
pub mod expr;
pub mod interpreter;
pub mod numeric;
pub mod object;
pub mod parser;
pub mod scanner;
pub mod stmt;
pub mod text;
pub mod token;

use vstd::prelude::*;
use crate::errors::lexer_error::LexerError;
use crate::errors::lexer_error::LexerErrorV;
use crate::errors::lexer_error::spec_lexer_error;
use crate::errors::syntax_error::SyntaxError;
use crate::errors::syntax_error::SyntaxErrorV;
use crate::interpreter::Interpreter;
use crate::interpreter::spec_interpret;
use crate::parser::Parser;
use crate::parser::spec_program;
use crate::scanner::Scanner;
use crate::scanner::eof_token;
use crate::scanner::spec_scan;
use crate::text::str_to_chars;

verus! {

/// Mathematical image of a failed run.
pub ghost enum RunErrorV {
    Lex(LexerErrorV),
    Syntax(SyntaxErrorV),
}

/// What ends a failed run: the scanner's error or the parser's/evaluator's
/// error.
#[derive(Debug)]
pub enum RunError {
    Lex(LexerError),
    Syntax(SyntaxError),
}

impl View for RunError {
    type V = RunErrorV;

    open spec fn view(&self) -> RunErrorV {
        match self {
            RunError::Lex(e) => RunErrorV::Lex(e@),
            RunError::Syntax(e) => RunErrorV::Syntax(e@),
        }
    }
}

/// The whole pipeline on one source text: the lines its print statements
/// write, or the first error of the first failing stage.
pub open spec fn spec_run(src: Seq<char>, file_name: Seq<char>) -> Result<
    Seq<Seq<char>>,
    RunErrorV,
> {
    match spec_scan(src, 0) {
        Err(se) => Err(
            RunErrorV::Lex(spec_lexer_error(se.line, se.column, se.kind, file_name, src)),
        ),
        Ok(ts) => match spec_program(ts.push(eof_token(src)), 0) {
            Err(e) => Err(RunErrorV::Syntax(e)),
            Ok(stmts) => match spec_interpret(stmts) {
                Err(e) => Err(RunErrorV::Syntax(e)),
                Ok(lines) => Ok(lines),
            },
        },
    }
}

/// The language front end: scanner, parser and evaluator run in sequence,
/// each stage completing before the next begins.
pub struct Cedar {
    pub interpreter: Interpreter,
}

impl Cedar {
    pub fn new() -> (r: Cedar)
        ensures
            r == (Cedar { interpreter: Interpreter {} }),
    {
        Cedar { interpreter: Interpreter {} }
    }

    /// Runs one source text through the pipeline: scans, parses and
    /// evaluates it, returning the lines its print statements write, or the
    /// first error of the first failing stage.
    pub fn run(&mut self, source: String, file_name: String) -> (r: Result<Vec<String>, RunError>)
        ensures
            match (r, spec_run(source@, file_name@)) {
                (Ok(v), Ok(lines)) => v.deep_view() == lines,
                (Err(e), Err(f)) => e@ == f,
                _ => false,
            },
    {
        let chars = str_to_chars(source.as_str());
        let scanner = Scanner::new(chars, file_name);
        let tokens = match scanner.scan_tokens() {
            Ok(tokens) => tokens,
            Err(e) => {
                return Err(RunError::Lex(e));
            },
        };
        let mut parser = Parser::new(tokens);
        let statements = match parser.parse() {
            Ok(statements) => statements,
            Err(e) => {
                return Err(RunError::Syntax(e));
            },
        };
        match self.interpreter.interpret(statements.as_slice()) {
            Ok(lines) => Ok(lines),
            Err(e) => Err(RunError::Syntax(e)),
        }
    }
}

} // verus!
