//! The lexer diagnostic: an enumerated kind with fixed message templates,
//! the 0-based position of the offending construct, and the raw character
//! buffer, kept so the offending source line can be regenerated on demand.

use vstd::prelude::*;
use crate::text::chars_to_string;
use crate::text::push_decimal;
use crate::text::push_str_chars;
use crate::text::push_string_chars;
use crate::text::spec_decimal;

verus! {

/// Mathematical image of a lexer-error kind.
pub ghost enum LexerErrorTypesV {
    UnexpectedEndOfString,
    UnexpectedCharacter(char),
    InvalidFloatingPoint,
    InvalidNumber(Seq<char>),
}

/// The enumerated kinds of lexer errors: an unterminated string, an
/// unrecognized character, a floating point with no digit after the point,
/// and a numeric lexeme that does not parse.
#[derive(Debug)]
pub enum LexerErrorTypes {
    UnexpectedEndOfString,
    UnexpectedCharacter(char),
    InvalidFloatingPoint(),
    InvalidNumber(String),
}

impl View for LexerErrorTypes {
    type V = LexerErrorTypesV;

    open spec fn view(&self) -> LexerErrorTypesV {
        match self {
            LexerErrorTypes::UnexpectedEndOfString => LexerErrorTypesV::UnexpectedEndOfString,
            LexerErrorTypes::UnexpectedCharacter(c) => LexerErrorTypesV::UnexpectedCharacter(*c),
            LexerErrorTypes::InvalidFloatingPoint() => LexerErrorTypesV::InvalidFloatingPoint,
            LexerErrorTypes::InvalidNumber(s) => LexerErrorTypesV::InvalidNumber(s@),
        }
    }
}

/// The fixed main-message template of each lexer-error kind.
pub open spec fn spec_lexer_main_message(t: LexerErrorTypesV) -> Seq<char> {
    match t {
        LexerErrorTypesV::UnexpectedEndOfString => "error[E2502] Unexpected end of string"@,
        LexerErrorTypesV::UnexpectedCharacter(c) => "error[E2503] Unexpected character '"@.push(
            c,
        ) + "'"@,
        LexerErrorTypesV::InvalidFloatingPoint => "error[E2504] Invalid floating point."@,
        LexerErrorTypesV::InvalidNumber(s) => "Invalid number '"@ + s + "'"@,
    }
}

/// The human-readable detail message of each lexer-error kind.
pub open spec fn spec_lexer_message(t: LexerErrorTypesV) -> Seq<char> {
    match t {
        LexerErrorTypesV::UnexpectedEndOfString => "Unexpected end of string"@,
        LexerErrorTypesV::UnexpectedCharacter(c) =>
            "Tip: Try to remove or replace this character: "@.push(c) + "."@,
        LexerErrorTypesV::InvalidFloatingPoint =>
            "Floating point should have a digit after it."@,
        LexerErrorTypesV::InvalidNumber(s) => "Invalid number '"@ + s + "'"@,
    }
}

/// Mathematical image of a lexer error.
pub ghost struct LexerErrorV {
    pub error_type: LexerErrorTypesV,
    pub line: int,
    pub column: int,
    pub main_message: Seq<char>,
    pub file_name: Seq<char>,
    pub source_toks: Seq<char>,
}

/// A lexer error at a 0-based source position, carrying its rendered main
/// message, the file name and the raw character buffer.
#[derive(Debug)]
pub struct LexerError {
    error_type: LexerErrorTypes,
    line: usize,
    column: usize,
    main_message: String,
    file_name: String,
    source_toks: Vec<char>,
}

impl View for LexerError {
    type V = LexerErrorV;

    closed spec fn view(&self) -> LexerErrorV {
        LexerErrorV {
            error_type: self.error_type@,
            line: self.line as int,
            column: self.column as int,
            main_message: self.main_message@,
            file_name: self.file_name@,
            source_toks: self.source_toks@,
        }
    }
}

/// The lexer error of a given kind at a given position, with the kind's
/// main-message template filled in.
pub open spec fn spec_lexer_error(
    line: int,
    column: int,
    t: LexerErrorTypesV,
    file_name: Seq<char>,
    source: Seq<char>,
) -> LexerErrorV {
    LexerErrorV {
        error_type: t,
        line,
        column,
        main_message: spec_lexer_main_message(t),
        file_name,
        source_toks: source,
    }
}

impl LexerError {
    pub fn new(
        line: usize,
        column: usize,
        error_type: LexerErrorTypes,
        file_name: String,
        source_toks: Vec<char>,
    ) -> (r: LexerError)
        ensures
            r@ == spec_lexer_error(
                line as int,
                column as int,
                error_type@,
                file_name@,
                source_toks@,
            ),
    {
        let mut buf: Vec<char> = Vec::new();
        match &error_type {
            LexerErrorTypes::UnexpectedEndOfString => {
                push_str_chars(&mut buf, "error[E2502] Unexpected end of string");
            },
            LexerErrorTypes::UnexpectedCharacter(c) => {
                push_str_chars(&mut buf, "error[E2503] Unexpected character '");
                buf.push(*c);
                push_str_chars(&mut buf, "'");
            },
            LexerErrorTypes::InvalidFloatingPoint() => {
                push_str_chars(&mut buf, "error[E2504] Invalid floating point.");
            },
            LexerErrorTypes::InvalidNumber(s) => {
                push_str_chars(&mut buf, "Invalid number '");
                push_string_chars(&mut buf, s);
                push_str_chars(&mut buf, "'");
            },
        }
        let main_message = chars_to_string(&buf);
        proof {
            assert(main_message@ =~= spec_lexer_main_message(error_type@));
        }
        LexerError { error_type, line, column, main_message, file_name, source_toks }
    }

    /// The human-readable detail message for this error's kind.
    pub fn message(&self) -> (r: String)
        ensures
            r@ == spec_lexer_message(self@.error_type),
    {
        let mut buf: Vec<char> = Vec::new();
        match &self.error_type {
            LexerErrorTypes::UnexpectedEndOfString => {
                push_str_chars(&mut buf, "Unexpected end of string");
            },
            LexerErrorTypes::UnexpectedCharacter(c) => {
                push_str_chars(&mut buf, "Tip: Try to remove or replace this character: ");
                buf.push(*c);
                push_str_chars(&mut buf, ".");
            },
            LexerErrorTypes::InvalidFloatingPoint() => {
                push_str_chars(&mut buf, "Floating point should have a digit after it.");
            },
            LexerErrorTypes::InvalidNumber(s) => {
                push_str_chars(&mut buf, "Invalid number '");
                push_string_chars(&mut buf, s);
                push_str_chars(&mut buf, "'");
            },
        }
        let r = chars_to_string(&buf);
        proof {
            assert(r@ =~= spec_lexer_message(self@.error_type));
        }
        r
    }

    /// The 0-based source line the error points at.
    pub fn line(&self) -> (r: usize)
        ensures
            r as int == self@.line,
    {
        self.line
    }

    /// The 0-based source column the error points at.
    pub fn column(&self) -> (r: usize)
        ensures
            r as int == self@.column,
    {
        self.column
    }

    /// The rendered main message of the error.
    pub fn main_message(&self) -> (r: String)
        ensures
            r@ == self@.main_message,
    {
        self.main_message.clone()
    }

    /// The name of the file the source came from.
    pub fn file_name(&self) -> (r: String)
        ensures
            r@ == self@.file_name,
    {
        self.file_name.clone()
    }

    /// The raw character buffer of the scanned source.
    pub fn source_chars(&self) -> (r: &Vec<char>)
        ensures
            r@ == self@.source_toks,
    {
        &self.source_toks
    }

    /// The enumerated kind of the error.
    pub fn error_type(&self) -> (r: &LexerErrorTypes)
        ensures
            r@ == self@.error_type,
    {
        &self.error_type
    }
}

/// The index of the first newline at or after `pos`, or the buffer's length
/// if there is none.
pub open spec fn next_newline(src: Seq<char>, pos: int) -> int
    decreases src.len() - pos,
{
    if pos < 0 || pos >= src.len() {
        src.len() as int
    } else if src[pos] == '\n' {
        pos
    } else {
        next_newline(src, pos + 1)
    }
}

pub proof fn lemma_next_newline_bounds(src: Seq<char>, pos: int)
    requires
        0 <= pos <= src.len(),
    ensures
        pos <= next_newline(src, pos) <= src.len(),
        next_newline(src, pos) < src.len() ==> src[next_newline(src, pos)] == '\n',
        forall|j: int| pos <= j < next_newline(src, pos) ==> src[j] != '\n',
    decreases src.len() - pos,
{
    if pos < src.len() && src[pos] != '\n' {
        lemma_next_newline_bounds(src, pos + 1);
    }
}

/// The index where the 0-based line `n` starts, or the buffer's length if
/// the buffer has fewer lines.
pub open spec fn line_start(src: Seq<char>, n: int) -> int
    decreases n,
{
    if n <= 0 {
        0
    } else {
        let e = next_newline(src, line_start(src, n - 1));
        if e < src.len() {
            e + 1
        } else {
            src.len() as int
        }
    }
}

pub proof fn lemma_line_start_bounds(src: Seq<char>, n: int)
    requires
        n >= 0,
    ensures
        0 <= line_start(src, n) <= src.len(),
    decreases n,
{
    if n > 0 {
        lemma_line_start_bounds(src, n - 1);
        lemma_next_newline_bounds(src, line_start(src, n - 1));
    }
}

/// The text of the 0-based line `n` of a buffer, without its newline; empty
/// if the buffer has fewer lines.
pub open spec fn line_text(src: Seq<char>, n: int) -> Seq<char> {
    src.subrange(line_start(src, n), next_newline(src, line_start(src, n)))
}

/// The line of the given 0-based number, rendered as the diagnostic snippet
/// shows it: a leading zero, the 1-based line number, ` | `, and the line's
/// text.
pub fn get_error_line(source_toks: &[char], line_num: usize) -> (r: String)
    requires
        line_num < usize::MAX,
    ensures
        r@ == "0"@ + spec_decimal((line_num + 1) as nat) + " | "@ + line_text(
            source_toks@,
            line_num as int,
        ),
{
    let src = source_toks;
    let ghost s = source_toks@;
    let mut start: usize = 0;
    let mut k: usize = 0;
    proof {
        lemma_line_start_bounds(s, line_num as int);
    }
    while k < line_num
        invariant
            0 <= k <= line_num,
            start as int == line_start(s, k as int),
            0 <= start <= s.len(),
            s == src@,
        decreases line_num - k,
    {
        // advance to the start of the next line
        let mut pos: usize = start;
        while pos < src.len() && src[pos] != '\n'
            invariant
                start <= pos <= s.len(),
                s == src@,
                next_newline(s, start as int) == next_newline(s, pos as int),
            decreases s.len() - pos,
        {
            pos += 1;
        }
        proof {
            assert(next_newline(s, pos as int) == if pos < s.len() {
                pos as int
            } else {
                s.len() as int
            });
        }
        if pos < src.len() {
            start = pos + 1;
        } else {
            start = pos;
        }
        k += 1;
    }
    let mut text: Vec<char> = Vec::new();
    let mut pos: usize = start;
    while pos < src.len() && src[pos] != '\n'
        invariant
            start <= pos <= s.len(),
            s == src@,
            next_newline(s, start as int) == next_newline(s, pos as int),
            text@ == s.subrange(start as int, pos as int),
        decreases s.len() - pos,
    {
        text.push(src[pos]);
        assert(text@ =~= s.subrange(start as int, pos + 1 as int));
        pos += 1;
    }
    proof {
        assert(next_newline(s, pos as int) == if pos < s.len() {
            pos as int
        } else {
            s.len() as int
        });
        assert(text@ == line_text(s, line_num as int));
    }
    let mut buf: Vec<char> = Vec::new();
    push_str_chars(&mut buf, "0");
    push_decimal(&mut buf, line_num + 1);
    push_str_chars(&mut buf, " | ");
    let mut i: usize = 0;
    while i < text.len()
        invariant
            0 <= i <= text.len(),
            buf@ == "0"@ + spec_decimal((line_num + 1) as nat) + " | "@ + text@.take(i as int),
        decreases text.len() - i,
    {
        buf.push(text[i]);
        assert(buf@ =~= "0"@ + spec_decimal((line_num + 1) as nat) + " | "@ + text@.take(
            i + 1 as int,
        ));
        i += 1;
    }
    assert(text@.take(text@.len() as int) =~= text@);
    chars_to_string(&buf)
}

/// A run of spaces.
pub open spec fn spec_spaces(n: nat) -> Seq<char>
    decreases n,
{
    if n == 0 {
        Seq::empty()
    } else {
        spec_spaces((n - 1) as nat).push(' ')
    }
}

/// The caret line of the diagnostic snippet: `col_num - 1` spaces and one
/// `^` under the offending column.
pub fn flash_error_location(col_num: usize) -> (r: String)
    requires
        col_num >= 1,
    ensures
        r@ == spec_spaces((col_num - 1) as nat).push('^'),
{
    let mut buf: Vec<char> = Vec::new();
    let mut i: usize = 0;
    while i < col_num - 1
        invariant
            0 <= i <= col_num - 1,
            buf@ == spec_spaces(i as nat),
        decreases col_num - 1 - i,
    {
        buf.push(' ');
        i += 1;
    }
    buf.push('^');
    chars_to_string(&buf)
}

} // verus!
