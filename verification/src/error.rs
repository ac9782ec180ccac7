//! The diagnostic-rendering contract: error values carrying a 0-based source
//! position, a short machine-stable main message and a human-readable detail
//! message, plus the helpers that cut the offending source lines out of the
//! raw character buffer for the caret-annotated snippet.

use vstd::prelude::*;
use crate::text::chars_to_string;
use crate::text::push_decimal;
use crate::text::push_str_chars;
use crate::text::spec_decimal;
use crate::text::str_to_chars;

verus! {

/// A lexer diagnostic carrying the full character buffer, so the offending
/// line can be rendered with its neighbours.
#[derive(Debug)]
pub struct CDLexerError {
    line: usize,
    message: String,
    column: usize,
    main_message: String,
    file_name: String,
    source_toks: Vec<char>,
}

/// Mathematical image of a `CDLexerError`.
pub ghost struct CDLexerErrorV {
    pub line: int,
    pub message: Seq<char>,
    pub column: int,
    pub main_message: Seq<char>,
    pub file_name: Seq<char>,
    pub source_toks: Seq<char>,
}

impl View for CDLexerError {
    type V = CDLexerErrorV;

    closed spec fn view(&self) -> CDLexerErrorV {
        CDLexerErrorV {
            line: self.line as int,
            message: self.message@,
            column: self.column as int,
            main_message: self.main_message@,
            file_name: self.file_name@,
            source_toks: self.source_toks@,
        }
    }
}

impl CDLexerError {
    /// Constructs the diagnostic from its parts, unchanged.
    pub fn error(
        line: usize,
        column: usize,
        main_message: String,
        message: String,
        file_name: String,
        source_toks: Vec<char>,
    ) -> (r: CDLexerError)
        ensures
            r@ == (CDLexerErrorV {
                line: line as int,
                message: message@,
                column: column as int,
                main_message: main_message@,
                file_name: file_name@,
                source_toks: source_toks@,
            }),
    {
        CDLexerError { line, message, column, main_message, file_name, source_toks }
    }

    /// The 0-based source line the error points at.
    pub fn line(&self) -> (r: usize)
        ensures
            r as int == self@.line,
    {
        self.line
    }

    /// The 0-based source column the error points at.
    pub fn column(&self) -> (r: usize)
        ensures
            r as int == self@.column,
    {
        self.column
    }

    /// The short machine-stable main message.
    pub fn main_message(&self) -> (r: String)
        ensures
            r@ == self@.main_message,
    {
        self.main_message.clone()
    }

    /// The human-readable detail message.
    pub fn message(&self) -> (r: String)
        ensures
            r@ == self@.message,
    {
        self.message.clone()
    }

    /// The name of the file the source came from.
    pub fn file_name(&self) -> (r: String)
        ensures
            r@ == self@.file_name,
    {
        self.file_name.clone()
    }

    /// The raw character buffer of the scanned source.
    pub fn source_chars(&self) -> (r: &Vec<char>)
        ensures
            r@ == self@.source_toks,
    {
        &self.source_toks
    }
}

/// The enumerated kinds the legacy syntax diagnostic distinguishes.
#[allow(non_camel_case_types)]
#[derive(Debug, Clone, Copy, PartialEq, Eq, Structural)]
pub enum CDSyntaxErrorTypes {
    UNEXPECTED_EOF,
    ENEXPECTED_TOKEN,
}

/// A syntax diagnostic with a 0-based position and two message parts.
#[derive(Debug)]
pub struct CDSyntaxError {
    line: usize,
    column: usize,
    main_message: String,
    message: String,
    error_type: CDSyntaxErrorTypes,
}

/// Mathematical image of a `CDSyntaxError`.
pub ghost struct CDSyntaxErrorV {
    pub line: int,
    pub column: int,
    pub main_message: Seq<char>,
    pub message: Seq<char>,
    pub error_type: CDSyntaxErrorTypes,
}

impl View for CDSyntaxError {
    type V = CDSyntaxErrorV;

    closed spec fn view(&self) -> CDSyntaxErrorV {
        CDSyntaxErrorV {
            line: self.line as int,
            column: self.column as int,
            main_message: self.main_message@,
            message: self.message@,
            error_type: self.error_type,
        }
    }
}

impl CDSyntaxError {
    /// Constructs the diagnostic from its parts, unchanged.
    pub fn error(
        error_type: CDSyntaxErrorTypes,
        line: usize,
        column: usize,
        main_message: String,
        message: String,
    ) -> (r: CDSyntaxError)
        ensures
            r@ == (CDSyntaxErrorV {
                line: line as int,
                column: column as int,
                main_message: main_message@,
                message: message@,
                error_type,
            }),
    {
        CDSyntaxError { line, column, main_message, message, error_type }
    }

    /// The fixed runtime-error diagnostic raised when an operand that must
    /// be a number is not one.
    pub fn runtime_error() -> (r: CDSyntaxError)
        ensures
            r@ == (CDSyntaxErrorV {
                line: 0,
                column: 0,
                main_message: "Syntax Error"@,
                message: "Operand must be a number."@,
                error_type: CDSyntaxErrorTypes::ENEXPECTED_TOKEN,
            }),
    {
        let mut buf: Vec<char> = Vec::new();
        push_str_chars(&mut buf, "Syntax Error");
        let main_message = chars_to_string(&buf);
        let mut buf2: Vec<char> = Vec::new();
        push_str_chars(&mut buf2, "Operand must be a number.");
        let message = chars_to_string(&buf2);
        proof {
            assert(main_message@ =~= "Syntax Error"@);
            assert(message@ =~= "Operand must be a number."@);
        }
        CDSyntaxError::error(CDSyntaxErrorTypes::ENEXPECTED_TOKEN, 0, 0, main_message, message)
    }

    /// The 0-based source line the error points at.
    pub fn line(&self) -> (r: usize)
        ensures
            r as int == self@.line,
    {
        self.line
    }

    /// The 0-based source column the error points at.
    pub fn column(&self) -> (r: usize)
        ensures
            r as int == self@.column,
    {
        self.column
    }

    /// The short machine-stable main message.
    pub fn main_message(&self) -> (r: String)
        ensures
            r@ == self@.main_message,
    {
        self.main_message.clone()
    }

    /// The human-readable detail message.
    pub fn message(&self) -> (r: String)
        ensures
            r@ == self@.message,
    {
        self.message.clone()
    }
}

/// The index of the `n`-th occurrence (1-based) of `c` at or after `pos`,
/// or the text's length if there are fewer occurrences.
pub open spec fn nth_index_from(s: Seq<char>, c: char, pos: int, n: int) -> int
    decreases s.len() - pos,
{
    if !(0 <= pos < s.len()) {
        s.len() as int
    } else if s[pos] == c {
        if n <= 1 {
            pos
        } else {
            nth_index_from(s, c, pos + 1, n - 1)
        }
    } else {
        nth_index_from(s, c, pos + 1, n)
    }
}

pub proof fn lemma_nth_index_bounds(s: Seq<char>, c: char, pos: int, n: int)
    requires
        0 <= pos <= s.len(),
        n >= 1,
    ensures
        pos <= nth_index_from(s, c, pos, n) <= s.len(),
        nth_index_from(s, c, pos, n) < s.len() ==> s[nth_index_from(s, c, pos, n)] == c,
        nth_index_from(s, c, pos, n) < s.len() ==> nth_index_from(s, c, pos, n) < nth_index_from(
            s,
            c,
            pos,
            n + 1,
        ),
        nth_index_from(s, c, pos, n) <= nth_index_from(s, c, pos, n + 1),
    decreases s.len() - pos,
{
    if 0 <= pos < s.len() {
        if s[pos] == c {
            if n == 1 {
                lemma_nth_index_bounds(s, c, pos + 1, 1);
            } else {
                lemma_nth_index_bounds(s, c, pos + 1, n - 1);
            }
        } else {
            lemma_nth_index_bounds(s, c, pos + 1, n);
        }
    }
}

/// The index of the `n`-th occurrence (1-based) of `c` in the text, or the
/// text's length if there are fewer; never absent.
pub fn find_nth_index(s: &str, c: char, n: usize) -> (r: Option<usize>)
    requires
        n >= 1,
    ensures
        r matches Some(i) && i as int == nth_index_from(s@, c, 0, n as int),
{
    let cs = str_to_chars(s);
    let mut pos: usize = 0;
    let mut m: usize = n;
    while pos < cs.len()
        invariant
            0 <= pos <= s@.len(),
            cs@ == s@,
            m >= 1,
            nth_index_from(s@, c, 0, n as int) == nth_index_from(s@, c, pos as int, m as int),
        decreases s@.len() - pos,
    {
        if cs[pos] == c {
            if m == 1 {
                return Some(pos);
            }
            m -= 1;
        }
        pos += 1;
    }
    Some(cs.len())
}

/// A run of `x + 3` spaces followed by the character `c`.
#[verifier::loop_isolation(false)]
pub fn create_string_with_spaces(x: usize, c: char) -> (r: String)
    requires
        x <= usize::MAX - 3,
    ensures
        r@ == crate::errors::lexer_error::spec_spaces((x + 3) as nat).push(c),
{
    let mut buf: Vec<char> = Vec::new();
    let mut i: usize = 0;
    while i < x + 3
        invariant
            0 <= i <= x + 3,
            buf@ == crate::errors::lexer_error::spec_spaces(i as nat),
        decreases x + 3 - i,
    {
        buf.push(' ');
        i += 1;
    }
    buf.push(c);
    chars_to_string(&buf)
}

/// One rendered snippet line: a leading zero, the decimal line number,
/// ` | `, the text between positions `a + 1` and `b`, and optionally a
/// trailing newline.
#[verifier::loop_isolation(false)]
fn snippet_line(cs: &Vec<char>, a: usize, b: usize, num: usize, trailing_newline: bool) -> (r:
    String)
    requires
        a < b <= cs@.len(),
    ensures
        r@ == "0"@ + spec_decimal(num as nat) + " | "@ + cs@.subrange(a + 1, b as int) + (
        if trailing_newline {
            "\n"@
        } else {
            Seq::<char>::empty()
        }),
{
    let mut buf: Vec<char> = Vec::new();
    push_str_chars(&mut buf, "0");
    push_decimal(&mut buf, num);
    push_str_chars(&mut buf, " | ");
    let mut k: usize = a + 1;
    while k < b
        invariant
            a + 1 <= k <= b,
            buf@ == "0"@ + spec_decimal(num as nat) + " | "@ + cs@.subrange(a + 1, k as int),
        decreases b - k,
    {
        buf.push(cs[k]);
        assert(buf@ =~= "0"@ + spec_decimal(num as nat) + " | "@ + cs@.subrange(
            a + 1,
            k + 1 as int,
        ));
        k += 1;
    }
    if trailing_newline {
        push_str_chars(&mut buf, "\n");
    }
    let r = chars_to_string(&buf);
    proof {
        if !trailing_newline {
            assert(buf@ =~= "0"@ + spec_decimal(num as nat) + " | "@ + cs@.subrange(
                a + 1,
                b as int,
            ) + Seq::<char>::empty());
        }
    }
    r
}

/// A single space, the rendering of an absent neighbour line.
fn blank_line() -> (r: String)
    ensures
        r@ == " "@,
{
    let mut buf: Vec<char> = Vec::new();
    push_str_chars(&mut buf, " ");
    let r = chars_to_string(&buf);
    proof {
        assert(r@ =~= " "@);
    }
    r
}

/// The rendering of the previous (`line_num == -1`), offending (`0`) or next
/// (`1`) source line for the diagnostic snippet, under the 1-based line
/// number `line`: the line number with a leading zero, ` | `, and the line's
/// text; a neighbour line also ends with a newline, and an absent neighbour
/// renders as a single space.
pub open spec fn spec_get_line(line: int, s: Seq<char>, line_num: int) -> Seq<char> {
    if line_num == -1 {
        "0"@ + spec_decimal((line - 1) as nat) + " | "@ + s.subrange(
            nth_index_from(s, '\n', 0, line - 2) + 1,
            nth_index_from(s, '\n', 0, line - 1),
        ) + "\n"@
    } else if line_num == 0 {
        "0"@ + spec_decimal(line as nat) + " | "@ + s.subrange(
            nth_index_from(s, '\n', 0, line - 1) + 1,
            nth_index_from(s, '\n', 0, line),
        )
    } else if line_num == 1 {
        if nth_index_from(s, '\n', 0, line) != nth_index_from(s, '\n', 0, line + 1) {
            "0"@ + spec_decimal((line + 1) as nat) + " | "@ + s.subrange(
                nth_index_from(s, '\n', 0, line) + 1,
                nth_index_from(s, '\n', 0, line + 1),
            ) + "\n"@
        } else {
            " "@
        }
    } else {
        " "@
    }
}

/// Renders one line of the diagnostic snippet; see `spec_get_line`.
pub fn get_line(line: usize, error_line: &String, line_num: i32) -> (r: String)
    requires
        line_num == -1 ==> 3 <= line && nth_index_from(error_line@, '\n', 0, line - 2)
            < error_line@.len(),
        line_num == 0 ==> 2 <= line && nth_index_from(error_line@, '\n', 0, line - 1)
            < error_line@.len(),
        line_num == 1 ==> 1 <= line <= usize::MAX - 1,
    ensures
        r@ == spec_get_line(line as int, error_line@, line_num as int),
{
    let ghost s = error_line@;
    let cs = str_to_chars(error_line.as_str());
    if line_num == -1 {
        proof {
            lemma_nth_index_bounds(s, '\n', 0, line - 2 as int);
            lemma_nth_index_bounds(s, '\n', 0, line - 1 as int);
        }
        let a = match find_nth_index(error_line.as_str(), '\n', line - 2) {
            Some(i) => i,
            None => 0,
        };
        let b = match find_nth_index(error_line.as_str(), '\n', line - 1) {
            Some(i) => i,
            None => 0,
        };
        snippet_line(&cs, a, b, line - 1, true)
    } else if line_num == 0 {
        proof {
            lemma_nth_index_bounds(s, '\n', 0, line - 1 as int);
            lemma_nth_index_bounds(s, '\n', 0, line as int);
        }
        let a = match find_nth_index(error_line.as_str(), '\n', line - 1) {
            Some(i) => i,
            None => 0,
        };
        let b = match find_nth_index(error_line.as_str(), '\n', line) {
            Some(i) => i,
            None => 0,
        };
        snippet_line(&cs, a, b, line, false)
    } else if line_num == 1 {
        proof {
            lemma_nth_index_bounds(s, '\n', 0, line as int);
            lemma_nth_index_bounds(s, '\n', 0, line + 1 as int);
        }
        let a = match find_nth_index(error_line.as_str(), '\n', line) {
            Some(i) => i,
            None => 0,
        };
        let b = match find_nth_index(error_line.as_str(), '\n', line + 1) {
            Some(i) => i,
            None => 0,
        };
        if a != b {
            snippet_line(&cs, a, b, line + 1, true)
        } else {
            blank_line()
        }
    } else {
        blank_line()
    }
}

} // verus!
