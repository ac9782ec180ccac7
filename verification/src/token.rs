//! The lexical unit type shared by the scanner, the parser and the evaluator.

use vstd::prelude::*;
use crate::object::Object;
use crate::object::ObjectV;

verus! {

/// The closed set of lexeme categories.
#[derive(Debug, Clone, Copy, PartialEq, Eq, Structural)]
pub enum TokenType {
    // Single-character tokens.
    LEFTPAREN,
    RIGHTPAREN,
    LEFTBRACE,
    RIGHTBRACE,
    COMMA,
    DOT,
    MINUS,
    PLUS,
    SEMICOLON,
    SLASH,
    STAR,
    POW,
    MODULO,
    // One or two character tokens.
    BANG,
    BANGEQUAL,
    EQUAL,
    EQUALEQUAL,
    GREATER,
    GREATEREQUAL,
    LESS,
    LESSEQUAL,
    // Literals.
    IDENTIFIER,
    STRING,
    NUMBER,
    // Keywords.
    AND,
    CLASS,
    ELSE,
    FALSE,
    FUNC,
    FOR,
    IF,
    NIL,
    OR,
    PRINT,
    RETURN,
    TRUE,
    HAVE,
    VAR,
    WHILE,
    EOF,
}

/// Mathematical image of a token: the same data with the lexeme as a
/// character sequence and the literal as an abstract value.
pub ghost struct TokenV {
    pub ttype: TokenType,
    pub lexeme: Seq<char>,
    pub literal: ObjectV,
    pub line: int,
    pub position: int,
}

/// A classified, source-positioned lexical unit produced by scanning.
/// `line` and `position` are the 0-based line and column of the token's
/// first character.
#[derive(Debug, Clone)]
pub struct Token {
    pub ttype: TokenType,
    pub lexeme: String,
    pub literal: Object,
    pub line: usize,
    pub position: usize,
}

impl View for Token {
    type V = TokenV;

    open spec fn view(&self) -> TokenV {
        TokenV {
            ttype: self.ttype,
            lexeme: self.lexeme@,
            literal: self.literal@,
            line: self.line as int,
            position: self.position as int,
        }
    }
}

impl Token {
    pub fn new(ttype: TokenType, lexeme: String, literal: Object, line: usize, position: usize)
        -> (r: Token)
        ensures
            r@ == (TokenV {
                ttype,
                lexeme: lexeme@,
                literal: literal@,
                line: line as int,
                position: position as int,
            }),
    {
        Token { ttype, lexeme, literal, line, position }
    }

    /// The exact source substring backing this token.
    pub fn as_string(&self) -> (r: String)
        ensures
            r@ == self@.lexeme,
    {
        self.lexeme.clone()
    }

    /// A copy of this token, equal to it in every field.
    pub fn dup(&self) -> (r: Token)
        ensures
            r@ == self@,
    {
        Token {
            ttype: self.ttype,
            lexeme: self.lexeme.clone(),
            literal: self.literal.dup(),
            line: self.line,
            position: self.position,
        }
    }
}

/// The fixed keyword table of the language: reserved words and the two
/// operator keywords `&&` and `||`. Every other identifier-shaped lexeme
/// is classified IDENTIFIER.
pub open spec fn spec_keyword_type(text: Seq<char>) -> TokenType {
    if text == "var"@ {
        TokenType::VAR
    } else if text == "for"@ {
        TokenType::FOR
    } else if text == "have"@ {
        TokenType::HAVE
    } else if text == "func"@ {
        TokenType::FUNC
    } else if text == "else"@ {
        TokenType::ELSE
    } else if text == "class"@ {
        TokenType::CLASS
    } else if text == "if"@ {
        TokenType::IF
    } else if text == "&&"@ {
        TokenType::AND
    } else if text == "||"@ {
        TokenType::OR
    } else if text == "while"@ {
        TokenType::WHILE
    } else if text == "show"@ {
        TokenType::PRINT
    } else if text == "ret"@ {
        TokenType::RETURN
    } else if text == "null"@ {
        TokenType::NIL
    } else if text == "true"@ {
        TokenType::TRUE
    } else if text == "false"@ {
        TokenType::FALSE
    } else {
        TokenType::IDENTIFIER
    }
}

/// Looks an identifier-shaped lexeme up in the keyword table.
pub fn keyword_type(text: &Vec<char>) -> (r: TokenType)
    ensures
        r == spec_keyword_type(text@),
{
    if chars_eq_str(text, "var") {
        TokenType::VAR
    } else if chars_eq_str(text, "for") {
        TokenType::FOR
    } else if chars_eq_str(text, "have") {
        TokenType::HAVE
    } else if chars_eq_str(text, "func") {
        TokenType::FUNC
    } else if chars_eq_str(text, "else") {
        TokenType::ELSE
    } else if chars_eq_str(text, "class") {
        TokenType::CLASS
    } else if chars_eq_str(text, "if") {
        TokenType::IF
    } else if chars_eq_str(text, "&&") {
        TokenType::AND
    } else if chars_eq_str(text, "||") {
        TokenType::OR
    } else if chars_eq_str(text, "while") {
        TokenType::WHILE
    } else if chars_eq_str(text, "show") {
        TokenType::PRINT
    } else if chars_eq_str(text, "ret") {
        TokenType::RETURN
    } else if chars_eq_str(text, "null") {
        TokenType::NIL
    } else if chars_eq_str(text, "true") {
        TokenType::TRUE
    } else if chars_eq_str(text, "false") {
        TokenType::FALSE
    } else {
        TokenType::IDENTIFIER
    }
}

/// Whether a character buffer holds exactly the characters of a string slice.
pub fn chars_eq_str(text: &Vec<char>, s: &str) -> (r: bool)
    ensures
        r == (text@ == s@),
{
    let s_chars = crate::text::str_to_chars(s);
    if text.len() != s_chars.len() {
        assert(text@ != s@) by {
            assert(text@.len() != s@.len());
        }
        return false;
    }
    let mut i: usize = 0;
    while i < text.len()
        invariant
            0 <= i <= text.len(),
            text@.len() == s@.len(),
            s_chars@ == s@,
            forall|j: int| 0 <= j < i ==> text@[j] == s@[j],
        decreases text.len() - i,
    {
        if text[i] != s_chars[i] {
            assert(text@ != s@) by {
                assert(text@[i as int] != s@[i as int]);
            }
            return false;
        }
        i += 1;
    }
    assert(text@ =~= s@);
    true
}

} // verus!
