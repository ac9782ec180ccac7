//! The syntax/runtime diagnostic: an enumerated kind mapped to a fixed
//! message template, carrying the offending token's 0-based line and column.

use vstd::prelude::*;
use crate::text::chars_to_string;
use crate::text::push_str_chars;
use crate::text::push_string_chars;

verus! {

/// Mathematical image of a syntax-error kind.
pub ghost enum SyntaxErrorTypesV {
    UnexpectedToken(Seq<char>),
    ExpectedToken(Seq<char>, Seq<char>),
    OperandNaN,
    InvalidUnary,
}

/// The enumerated kinds of syntax and runtime errors: an unexpected token,
/// an expected token that was not found (with what was found instead), a
/// unary-minus operand that is not a number, and an operator application
/// with no defined result.
#[derive(Debug)]
pub enum SyntaxErrorTypes {
    UnexpectedToken(String),
    ExpectedToken(String, String),
    OperandNaN(),
    InvalidUnary(),
}

impl View for SyntaxErrorTypes {
    type V = SyntaxErrorTypesV;

    open spec fn view(&self) -> SyntaxErrorTypesV {
        match self {
            SyntaxErrorTypes::UnexpectedToken(c) => SyntaxErrorTypesV::UnexpectedToken(c@),
            SyntaxErrorTypes::ExpectedToken(c, d) => SyntaxErrorTypesV::ExpectedToken(c@, d@),
            SyntaxErrorTypes::OperandNaN() => SyntaxErrorTypesV::OperandNaN,
            SyntaxErrorTypes::InvalidUnary() => SyntaxErrorTypesV::InvalidUnary,
        }
    }
}

/// The fixed message template of each syntax-error kind.
pub open spec fn spec_syntax_main_message(t: SyntaxErrorTypesV) -> Seq<char> {
    match t {
        SyntaxErrorTypesV::UnexpectedToken(c) => "Unexpected Token: Token \""@ + c + "\""@,
        SyntaxErrorTypesV::ExpectedToken(c, d) => "Expected Token \""@ + c + "\", got \""@ + d
            + "\"."@,
        SyntaxErrorTypesV::OperandNaN => "Operand must be a number."@,
        SyntaxErrorTypesV::InvalidUnary => "Invalid unary expression."@,
    }
}

/// Mathematical image of a syntax error.
pub ghost struct SyntaxErrorV {
    pub error_type: SyntaxErrorTypesV,
    pub line: int,
    pub column: int,
    pub main_message: Seq<char>,
}

/// A syntax or runtime error at a 0-based source position, with its
/// rendered main message.
#[derive(Debug)]
pub struct SyntaxError {
    error_type: SyntaxErrorTypes,
    line: usize,
    column: usize,
    main_message: String,
}

impl View for SyntaxError {
    type V = SyntaxErrorV;

    closed spec fn view(&self) -> SyntaxErrorV {
        SyntaxErrorV {
            error_type: self.error_type@,
            line: self.line as int,
            column: self.column as int,
            main_message: self.main_message@,
        }
    }
}

/// The syntax error of a given kind at a given position, with the kind's
/// message template filled in.
pub open spec fn spec_syntax_error(line: int, column: int, t: SyntaxErrorTypesV) -> SyntaxErrorV {
    SyntaxErrorV { error_type: t, line, column, main_message: spec_syntax_main_message(t) }
}

impl SyntaxError {
    pub fn new(line: usize, column: usize, error_type: SyntaxErrorTypes) -> (r: SyntaxError)
        ensures
            r@ == spec_syntax_error(line as int, column as int, error_type@),
    {
        let mut buf: Vec<char> = Vec::new();
        match &error_type {
            SyntaxErrorTypes::UnexpectedToken(c) => {
                push_str_chars(&mut buf, "Unexpected Token: Token \"");
                push_string_chars(&mut buf, c);
                push_str_chars(&mut buf, "\"");
            },
            SyntaxErrorTypes::ExpectedToken(c, d) => {
                push_str_chars(&mut buf, "Expected Token \"");
                push_string_chars(&mut buf, c);
                push_str_chars(&mut buf, "\", got \"");
                push_string_chars(&mut buf, d);
                push_str_chars(&mut buf, "\".");
            },
            SyntaxErrorTypes::OperandNaN() => {
                push_str_chars(&mut buf, "Operand must be a number.");
            },
            SyntaxErrorTypes::InvalidUnary() => {
                push_str_chars(&mut buf, "Invalid unary expression.");
            },
        }
        let main_message = chars_to_string(&buf);
        proof {
            assert(main_message@ =~= spec_syntax_main_message(error_type@));
        }
        SyntaxError { error_type, line, column, main_message }
    }

    /// The 0-based source line the error points at.
    pub fn line(&self) -> (r: usize)
        ensures
            r as int == self@.line,
    {
        self.line
    }

    /// The 0-based source column the error points at.
    pub fn column(&self) -> (r: usize)
        ensures
            r as int == self@.column,
    {
        self.column
    }

    /// The rendered main message of the error.
    pub fn main_message(&self) -> (r: String)
        ensures
            r@ == self@.main_message,
    {
        self.main_message.clone()
    }

    /// The enumerated kind of the error.
    pub fn error_type(&self) -> (r: &SyntaxErrorTypes)
        ensures
            r@ == self@.error_type,
    {
        &self.error_type
    }
}

} // verus!
