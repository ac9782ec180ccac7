//! The scanner: consumes source characters and emits the token sequence,
//! keeping 0-based line/column counters that every consumed character
//! advances (a newline resets the column and steps the line). Each token
//! carries the position of its first character.
//!
//! Scanning halts at the first lexer error: an unterminated string, a
//! floating point with no digit after the point, or an unrecognized
//! character. On success a terminal EOF token is appended, so parser
//! lookahead never reads past the end of the sequence.
//!
//! The whole scan is mirrored by `spec_scan`, a recursive function of the
//! character sequence alone; `scan_tokens` returns exactly its tokens, or
//! exactly its error.

use vstd::prelude::*;
use crate::errors::lexer_error::LexerError;
use crate::errors::lexer_error::LexerErrorTypes;
use crate::errors::lexer_error::LexerErrorTypesV;
use crate::errors::lexer_error::lemma_next_newline_bounds;
use crate::errors::lexer_error::next_newline;
use crate::errors::lexer_error::spec_lexer_error;
use crate::numeric::all_digits_range;
use crate::numeric::is_digit_char;
use crate::numeric::is_number_lexeme;
use crate::numeric::num_parse;
use crate::numeric::number_bits_of;
use crate::object::Object;
use crate::object::ObjectV;
use crate::parser::stream_wf;
use crate::parser::toks_wf;
use crate::text::chars_to_string;
use crate::text::clone_chars;
use crate::token::Token;
use crate::token::TokenType;
use crate::token::TokenV;
use crate::token::keyword_type;
use crate::token::spec_keyword_type;

verus! {

/// Whether a character may start an identifier: a letter, an underscore, or
/// one of the operator-keyword characters `|` and `&`.
pub open spec fn is_alpha_char(c: char) -> bool {
    (97 <= c as u32 <= 122) || (65 <= c as u32 <= 90) || c == '_' || c == '|' || c == '&'
}

/// Whether a character may continue an identifier.
pub open spec fn is_alnum_char(c: char) -> bool {
    is_alpha_char(c) || is_digit_char(c)
}

/// The 0-based line of a position: how many newlines precede it.
pub open spec fn line_at(src: Seq<char>, pos: int) -> int
    decreases pos,
{
    if pos <= 0 {
        0
    } else {
        line_at(src, pos - 1) + if 0 <= pos - 1 < src.len() && src[pos - 1] == '\n' {
            1int
        } else {
            0int
        }
    }
}

/// The 0-based column of a position: how many characters follow the last
/// newline before it.
pub open spec fn col_at(src: Seq<char>, pos: int) -> int
    decreases pos,
{
    if pos <= 0 {
        0
    } else if 0 <= pos - 1 < src.len() && src[pos - 1] == '\n' {
        0
    } else {
        col_at(src, pos - 1) + 1
    }
}

pub proof fn lemma_position_counters_bounded(src: Seq<char>, pos: int)
    requires
        pos >= 0,
    ensures
        0 <= line_at(src, pos) <= pos,
        0 <= col_at(src, pos) <= pos,
    decreases pos,
{
    if pos > 0 {
        lemma_position_counters_bounded(src, pos - 1);
    }
}

/// The first index at or after `pos` whose character is not a digit, or the
/// end of the source.
pub open spec fn digits_end(src: Seq<char>, pos: int) -> int
    decreases src.len() - pos,
{
    if !(0 <= pos < src.len()) {
        pos
    } else if is_digit_char(src[pos]) {
        digits_end(src, pos + 1)
    } else {
        pos
    }
}

pub proof fn lemma_digits_end_bounds(src: Seq<char>, pos: int)
    requires
        0 <= pos <= src.len(),
    ensures
        pos <= digits_end(src, pos) <= src.len(),
        forall|j: int| pos <= j < digits_end(src, pos) ==> is_digit_char(#[trigger] src[j]),
        digits_end(src, pos) < src.len() ==> !is_digit_char(src[digits_end(src, pos)]),
    decreases src.len() - pos,
{
    if pos < src.len() && is_digit_char(src[pos]) {
        lemma_digits_end_bounds(src, pos + 1);
    }
}

/// The first index at or after `pos` whose character does not continue an
/// identifier, or the end of the source.
pub open spec fn ident_end(src: Seq<char>, pos: int) -> int
    decreases src.len() - pos,
{
    if !(0 <= pos < src.len()) {
        pos
    } else if is_alnum_char(src[pos]) {
        ident_end(src, pos + 1)
    } else {
        pos
    }
}

pub proof fn lemma_ident_end_bounds(src: Seq<char>, pos: int)
    requires
        0 <= pos <= src.len(),
    ensures
        pos <= ident_end(src, pos) <= src.len(),
        forall|j: int| pos <= j < ident_end(src, pos) ==> is_alnum_char(#[trigger] src[j]),
        ident_end(src, pos) < src.len() ==> !is_alnum_char(src[ident_end(src, pos)]),
    decreases src.len() - pos,
{
    if pos < src.len() && is_alnum_char(src[pos]) {
        lemma_ident_end_bounds(src, pos + 1);
    }
}

/// The index of the closing quote at or after `pos`, if any.
pub open spec fn string_end(src: Seq<char>, pos: int) -> Option<int>
    decreases src.len() - pos,
{
    if !(0 <= pos < src.len()) {
        None
    } else if src[pos] == '"' {
        Some(pos)
    } else {
        string_end(src, pos + 1)
    }
}

pub proof fn lemma_string_end_bounds(src: Seq<char>, pos: int)
    requires
        0 <= pos <= src.len(),
    ensures
        string_end(src, pos) matches Some(q) ==> pos <= q < src.len() && src[q] == '"',
    decreases src.len() - pos,
{
    if pos < src.len() && src[pos] != '"' {
        lemma_string_end_bounds(src, pos + 1);
    }
}

/// Whether a character is a single-character punctuation lexeme.
pub open spec fn is_single_char(c: char) -> bool {
    c == '(' || c == ')' || c == '{' || c == '}' || c == '+' || c == '-' || c == '*' || c == '.'
        || c == ',' || c == ';'
}

/// The token type of a single-character punctuation lexeme.
pub open spec fn single_char_type(c: char) -> TokenType {
    if c == '(' {
        TokenType::LEFTPAREN
    } else if c == ')' {
        TokenType::RIGHTPAREN
    } else if c == '{' {
        TokenType::LEFTBRACE
    } else if c == '}' {
        TokenType::RIGHTBRACE
    } else if c == '+' {
        TokenType::PLUS
    } else if c == '-' {
        TokenType::MINUS
    } else if c == '*' {
        TokenType::STAR
    } else if c == '.' {
        TokenType::DOT
    } else if c == ',' {
        TokenType::COMMA
    } else {
        TokenType::SEMICOLON
    }
}

/// The one-character operator token type of `!`, `=`, `<` or `>`.
pub open spec fn lone_op_type(c: char) -> TokenType {
    if c == '!' {
        TokenType::BANG
    } else if c == '=' {
        TokenType::EQUAL
    } else if c == '<' {
        TokenType::LESS
    } else {
        TokenType::GREATER
    }
}

/// The two-character operator token type of `!=`, `==`, `<=` or `>=`.
pub open spec fn eq_op_type(c: char) -> TokenType {
    if c == '!' {
        TokenType::BANGEQUAL
    } else if c == '=' {
        TokenType::EQUALEQUAL
    } else if c == '<' {
        TokenType::LESSEQUAL
    } else {
        TokenType::GREATEREQUAL
    }
}

/// Mathematical image of a halted scan: the error kind and its position.
pub ghost struct ScanErrorV {
    pub kind: LexerErrorTypesV,
    pub line: int,
    pub column: int,
}

/// The token starting at `start`, carrying that position's line and column.
pub open spec fn tok_at(
    ttype: TokenType,
    lexeme: Seq<char>,
    literal: ObjectV,
    src: Seq<char>,
    start: int,
) -> TokenV {
    TokenV { ttype, lexeme, literal, line: line_at(src, start), position: col_at(src, start) }
}

/// Prepends a token to the tokens of a scan that has not failed.
pub open spec fn cons_tok(t: TokenV, rest: Result<Seq<TokenV>, ScanErrorV>) -> Result<
    Seq<TokenV>,
    ScanErrorV,
> {
    match rest {
        Ok(ts) => Ok(seq![t] + ts),
        Err(e) => Err(e),
    }
}

/// The lexer error of the given kind at the position `at`.
pub open spec fn scan_error(kind: LexerErrorTypesV, src: Seq<char>, at: int) -> Result<
    Seq<TokenV>,
    ScanErrorV,
> {
    Err(ScanErrorV { kind, line: line_at(src, at), column: col_at(src, at) })
}

/// The tokens of the source from `pos` on (without the terminal EOF token),
/// or the first lexer error.
pub open spec fn spec_scan(src: Seq<char>, pos: int) -> Result<Seq<TokenV>, ScanErrorV>
    decreases src.len() - pos,
{
    if !(0 <= pos < src.len()) {
        Ok(Seq::empty())
    } else {
        let c = src[pos];
        if c == '\n' || c == ' ' {
            spec_scan(src, pos + 1)
        } else if is_single_char(c) {
            cons_tok(
                tok_at(single_char_type(c), seq![c], ObjectV::Nil, src, pos),
                spec_scan(src, pos + 1),
            )
        } else if c == '!' || c == '=' || c == '<' || c == '>' {
            if pos + 1 < src.len() && src[pos + 1] == '=' {
                cons_tok(
                    tok_at(eq_op_type(c), seq![c, '='], ObjectV::Nil, src, pos),
                    spec_scan(src, pos + 2),
                )
            } else {
                cons_tok(
                    tok_at(lone_op_type(c), seq![c], ObjectV::Nil, src, pos),
                    spec_scan(src, pos + 1),
                )
            }
        } else if c == '/' {
            if pos + 1 < src.len() && src[pos + 1] == '/' {
                let j = next_newline(src, pos + 2);
                if pos < j <= src.len() {
                    spec_scan(src, j)
                } else {
                    scan_error(LexerErrorTypesV::UnexpectedCharacter(c), src, pos)
                }
            } else {
                cons_tok(
                    tok_at(TokenType::SLASH, seq![c], ObjectV::Nil, src, pos),
                    spec_scan(src, pos + 1),
                )
            }
        } else if c == '"' {
            match string_end(src, pos + 1) {
                None => scan_error(LexerErrorTypesV::UnexpectedEndOfString, src, pos),
                Some(q) => if pos < q < src.len() {
                    let lex = src.subrange(pos + 1, q);
                    cons_tok(
                        tok_at(TokenType::STRING, lex, ObjectV::Str(lex), src, pos),
                        spec_scan(src, q + 1),
                    )
                } else {
                    scan_error(LexerErrorTypesV::UnexpectedEndOfString, src, pos)
                },
            }
        } else if is_digit_char(c) {
            let d1 = digits_end(src, pos);
            if d1 < src.len() && src[d1] == '.' {
                if d1 + 1 < src.len() && is_digit_char(src[d1 + 1]) {
                    let d2 = digits_end(src, d1 + 1);
                    if pos < d2 <= src.len() {
                        let lex = src.subrange(pos, d2);
                        cons_tok(
                            tok_at(
                                TokenType::NUMBER,
                                lex,
                                ObjectV::Num(number_bits_of(lex)),
                                src,
                                pos,
                            ),
                            spec_scan(src, d2),
                        )
                    } else {
                        scan_error(LexerErrorTypesV::InvalidFloatingPoint, src, d1)
                    }
                } else {
                    scan_error(LexerErrorTypesV::InvalidFloatingPoint, src, d1)
                }
            } else if pos < d1 <= src.len() {
                let lex = src.subrange(pos, d1);
                cons_tok(
                    tok_at(TokenType::NUMBER, lex, ObjectV::Num(number_bits_of(lex)), src, pos),
                    spec_scan(src, d1),
                )
            } else {
                scan_error(LexerErrorTypesV::UnexpectedCharacter(c), src, pos)
            }
        } else if is_alpha_char(c) {
            let e = ident_end(src, pos);
            if pos < e <= src.len() {
                let lex = src.subrange(pos, e);
                cons_tok(
                    tok_at(spec_keyword_type(lex), lex, ObjectV::Nil, src, pos),
                    spec_scan(src, e),
                )
            } else {
                scan_error(LexerErrorTypesV::UnexpectedCharacter(c), src, pos)
            }
        } else {
            scan_error(LexerErrorTypesV::UnexpectedCharacter(c), src, pos)
        }
    }
}

/// The terminal token appended once the input is exhausted.
pub open spec fn eof_token(src: Seq<char>) -> TokenV {
    TokenV {
        ttype: TokenType::EOF,
        lexeme: Seq::empty(),
        literal: ObjectV::Nil,
        line: line_at(src, src.len() as int),
        position: col_at(src, src.len() as int),
    }
}

/// Every scanned token is an ordinary token: never the end-of-input marker,
/// and never carrying the arithmetic-error sentinel as its literal.
pub proof fn lemma_scan_tokens_ordinary(src: Seq<char>, pos: int)
    ensures
        spec_scan(src, pos) matches Ok(ts) ==> forall|k: int|
            0 <= k < ts.len() ==> (#[trigger] ts[k]).ttype != TokenType::EOF && !(
            ts[k].literal is ArithmeticError),
    decreases src.len() - pos,
{
    if 0 <= pos < src.len() {
        let c = src[pos];
        lemma_scan_tokens_ordinary(src, pos + 1);
        if pos + 2 <= src.len() {
            lemma_scan_tokens_ordinary(src, pos + 2);
        }
        if c == '/' && pos + 2 <= src.len() {
            let j = next_newline(src, pos + 2);
            lemma_next_newline_bounds(src, pos + 2);
            if pos < j <= src.len() {
                lemma_scan_tokens_ordinary(src, j);
            }
        }
        if c == '"' {
            lemma_string_end_bounds(src, pos + 1);
            match string_end(src, pos + 1) {
                Some(q) => {
                    if pos < q < src.len() {
                        lemma_scan_tokens_ordinary(src, q + 1);
                    }
                },
                None => {},
            }
        }
        if is_digit_char(c) {
            lemma_digits_end_bounds(src, pos);
            let d1 = digits_end(src, pos);
            if pos < d1 <= src.len() {
                lemma_scan_tokens_ordinary(src, d1);
            }
            if d1 + 1 <= src.len() {
                lemma_digits_end_bounds(src, d1 + 1);
                let d2 = digits_end(src, d1 + 1);
                if pos < d2 <= src.len() {
                    lemma_scan_tokens_ordinary(src, d2);
                }
            }
        }
        if is_alpha_char(c) {
            lemma_ident_end_bounds(src, pos);
            let e = ident_end(src, pos);
            if pos < e <= src.len() {
                lemma_scan_tokens_ordinary(src, e);
            }
        }
    }
}

/// Appends a token, or propagates a failed scan.
pub open spec fn scan_join(done: Seq<TokenV>, rest: Result<Seq<TokenV>, ScanErrorV>) -> Result<
    Seq<TokenV>,
    ScanErrorV,
> {
    match rest {
        Ok(ts) => Ok(done + ts),
        Err(e) => Err(e),
    }
}

pub proof fn lemma_join_push(done: Seq<TokenV>, t: TokenV, rest: Result<Seq<TokenV>, ScanErrorV>)
    ensures
        scan_join(done, cons_tok(t, rest)) == scan_join(done.push(t), rest),
{
    match rest {
        Ok(ts) => {
            assert(done + (seq![t] + ts) =~= done.push(t) + ts);
        },
        Err(_) => {},
    }
}

/// The scanner: an input cursor over the character buffer, with the 0-based
/// line and column of the cursor, the tokens emitted so far, and the file
/// name that diagnostics carry.
pub struct Scanner {
    source: Vec<char>,
    tokens: Vec<Token>,
    position: usize,
    offset: usize,
    line: usize,
    file_name: String,
}

impl Scanner {
    /// The character buffer being scanned.
    pub closed spec fn src(&self) -> Seq<char> {
        self.source@
    }

    /// The tokens emitted so far.
    pub closed spec fn toks(&self) -> Seq<TokenV> {
        self.tokens@.map_values(|t: Token| t@)
    }

    /// The cursor position.
    pub closed spec fn pos(&self) -> int {
        self.position as int
    }

    /// The 0-based line counter.
    pub closed spec fn line_no(&self) -> int {
        self.line as int
    }

    /// The 0-based column counter.
    pub closed spec fn col_no(&self) -> int {
        self.offset as int
    }

    /// The file name carried into diagnostics.
    pub closed spec fn fname(&self) -> Seq<char> {
        self.file_name@
    }

    /// The scanner's invariant: the cursor is inside (or just past) the
    /// buffer and the counters match its position.
    pub open spec fn inv(&self) -> bool {
        &&& 0 <= self.pos() <= self.src().len()
        &&& self.line_no() == line_at(self.src(), self.pos())
        &&& self.col_no() == col_at(self.src(), self.pos())
    }

    pub fn new(source: Vec<char>, file_name: String) -> (r: Scanner)
        ensures
            r.inv(),
            r.src() == source@,
            r.fname() == file_name@,
            r.pos() == 0,
            r.toks() == Seq::<TokenV>::empty(),
    {
        let r = Scanner {
            source,
            tokens: Vec::new(),
            position: 0,
            line: 0,
            offset: 0,
            file_name,
        };
        proof {
            assert(r.toks() =~= Seq::<TokenV>::empty());
        }
        r
    }

    /// Whether the cursor has reached the end of the source.
    fn is_eof(&self) -> (r: bool)
        ensures
            r == (self.pos() >= self.src().len()),
    {
        self.position >= self.source.len()
    }

    /// The character under the cursor, or a space just past the end.
    fn at(&self) -> (r: char)
        requires
            self.inv(),
        ensures
            self.pos() < self.src().len() ==> r == self.src()[self.pos()],
            self.pos() >= self.src().len() ==> r == ' ',
    {
        if self.position != self.source.len() {
            self.source[self.position]
        } else {
            ' '
        }
    }

    /// Consumes a newline: steps the cursor, resets the column, and steps
    /// the line counter.
    fn next_line(&mut self)
        requires
            old(self).inv(),
            old(self).pos() < old(self).src().len(),
            old(self).src()[old(self).pos()] == '\n',
        ensures
            final(self).inv(),
            final(self).src() == old(self).src(),
            final(self).fname() == old(self).fname(),
            final(self).toks() == old(self).toks(),
            final(self).pos() == old(self).pos() + 1,
    {
        let source_len = self.source.len();
        proof {
            lemma_position_counters_bounded(self.src(), self.pos());
            assert(self.pos() < source_len);
        }
        self.position += 1;
        self.offset = 0;
        self.line += 1;
    }

    /// Consumes one non-newline character: steps the cursor and the column.
    fn empty_next(&mut self)
        requires
            old(self).inv(),
            old(self).pos() < old(self).src().len(),
            old(self).src()[old(self).pos()] != '\n',
        ensures
            final(self).inv(),
            final(self).src() == old(self).src(),
            final(self).fname() == old(self).fname(),
            final(self).toks() == old(self).toks(),
            final(self).pos() == old(self).pos() + 1,
    {
        let source_len = self.source.len();
        proof {
            lemma_position_counters_bounded(self.src(), self.pos());
            assert(self.pos() < source_len);
        }
        self.position += 1;
        self.offset += 1;
    }

    /// Whether the character after the cursor is `c`.
    fn peek(&self, c: char) -> (r: bool)
        requires
            self.inv(),
        ensures
            r == (self.pos() + 1 < self.src().len() && self.src()[self.pos() + 1] == c),
    {
        if self.is_eof() {
            return false;
        }
        let n = self.source.len();
        self.position + 1 < n && self.source[self.position + 1] == c
    }

    /// The character after the cursor, or the null character at the end.
    fn peak_next(&self) -> (r: char)
        requires
            self.inv(),
        ensures
            self.pos() + 1 < self.src().len() ==> r == self.src()[self.pos() + 1],
            self.pos() + 1 >= self.src().len() ==> r == '\u{0}',
    {
        if self.is_eof() {
            return '\u{0}';
        }
        let n = self.source.len();
        if self.position + 1 != n {
            self.source[self.position + 1]
        } else {
            '\u{0}'
        }
    }

    /// Whether a character is a decimal digit.
    fn is_digit(&self, c: char) -> (r: bool)
        ensures
            r == is_digit_char(c),
    {
        48 <= c as u32 && c as u32 <= 57
    }

    /// Whether a character may start an identifier: a letter, `_`, `|` or
    /// `&`.
    fn is_alpha(&self, c: char) -> (r: bool)
        ensures
            r == is_alpha_char(c),
    {
        (97 <= c as u32 && c as u32 <= 122) || (65 <= c as u32 && c as u32 <= 90) || c == '_' || c
            == '|' || c == '&'
    }

    /// Whether a character may continue an identifier.
    fn is_alpha_numeric(&self, c: char) -> (r: bool)
        ensures
            r == is_alnum_char(c),
    {
        self.is_alpha(c) || self.is_digit(c)
    }

    /// Emits a one-character token of the given type at the cursor, then
    /// consumes the character.
    fn add_token(&mut self, tok_type: TokenType)
        requires
            old(self).inv(),
            old(self).pos() < old(self).src().len(),
            old(self).src()[old(self).pos()] != '\n',
        ensures
            final(self).inv(),
            final(self).src() == old(self).src(),
            final(self).fname() == old(self).fname(),
            final(self).pos() == old(self).pos() + 1,
            final(self).toks() == old(self).toks().push(
                tok_at(
                    tok_type,
                    seq![old(self).src()[old(self).pos()]],
                    ObjectV::Nil,
                    old(self).src(),
                    old(self).pos(),
                ),
            ),
    {
        let c = self.source[self.position];
        let mut buf: Vec<char> = Vec::new();
        buf.push(c);
        let lexeme = chars_to_string(&buf);
        let ghost pre = self.toks();
        self.tokens.push(Token::new(tok_type, lexeme, Object::Nil, self.line, self.offset));
        proof {
            assert(self.toks() =~= pre.push(self.tokens@[self.tokens@.len() - 1]@));
            assert(buf@ =~= seq![c]);
        }
        self.empty_next();
    }

    /// Emits a token with the given type, lexeme and literal at the given
    /// position.
    fn add_string_token(
        &mut self,
        object_type: Object,
        tok_type: TokenType,
        value: String,
        line: usize,
        position: usize,
    )
        ensures
            final(self).inv() == old(self).inv(),
            final(self).src() == old(self).src(),
            final(self).fname() == old(self).fname(),
            final(self).pos() == old(self).pos(),
            final(self).line_no() == old(self).line_no(),
            final(self).col_no() == old(self).col_no(),
            final(self).toks() == old(self).toks().push(
                TokenV {
                    ttype: tok_type,
                    lexeme: value@,
                    literal: object_type@,
                    line: line as int,
                    position: position as int,
                },
            ),
    {
        let ghost pre = self.toks();
        self.tokens.push(Token::new(tok_type, value, object_type, line, position));
        proof {
            assert(self.toks() =~= pre.push(self.tokens@[self.tokens@.len() - 1]@));
        }
    }

    /// At `!`, `=`, `<` or `>`: looks one character ahead for `=` and emits
    /// the two-character operator token, else the one-character token.
    fn add_conditional_token(&mut self, compare: char, type_true: TokenType, type_false: TokenType)
        requires
            old(self).inv(),
            old(self).pos() < old(self).src().len(),
            old(self).src()[old(self).pos()] != '\n',
            compare != '\n',
        ensures
            final(self).inv(),
            final(self).src() == old(self).src(),
            final(self).fname() == old(self).fname(),
            (old(self).pos() + 1 < old(self).src().len() && old(self).src()[old(self).pos() + 1]
                == compare) ==> (final(self).pos() == old(self).pos() + 2 && final(self).toks()
                == old(self).toks().push(
                tok_at(
                    type_true,
                    seq![old(self).src()[old(self).pos()], compare],
                    ObjectV::Nil,
                    old(self).src(),
                    old(self).pos(),
                ),
            )),
            !(old(self).pos() + 1 < old(self).src().len() && old(self).src()[old(self).pos() + 1]
                == compare) ==> (final(self).pos() == old(self).pos() + 1 && final(self).toks()
                == old(self).toks().push(
                tok_at(
                    type_false,
                    seq![old(self).src()[old(self).pos()]],
                    ObjectV::Nil,
                    old(self).src(),
                    old(self).pos(),
                ),
            )),
    {
        if self.peek(compare) {
            let c = self.source[self.position];
            let mut buf: Vec<char> = Vec::new();
            buf.push(c);
            buf.push(compare);
            let lexeme = chars_to_string(&buf);
            let ghost pre = self.toks();
            self.tokens.push(Token::new(type_true, lexeme, Object::Nil, self.line, self.offset));
            proof {
                assert(self.toks() =~= pre.push(self.tokens@[self.tokens@.len() - 1]@));
                assert(buf@ =~= seq![c, compare]);
            }
            self.empty_next();
            self.empty_next();
        } else {
            self.add_token(type_false);
        }
    }

    /// At `/`: a second `/` starts a line comment, skipped up to (not
    /// including) the newline; otherwise emits the SLASH token.
    #[verifier::loop_isolation(false)]
    fn check_for_comments(&mut self)
        requires
            old(self).inv(),
            old(self).pos() < old(self).src().len(),
            old(self).src()[old(self).pos()] == '/',
        ensures
            final(self).inv(),
            final(self).src() == old(self).src(),
            final(self).fname() == old(self).fname(),
            (old(self).pos() + 1 < old(self).src().len() && old(self).src()[old(self).pos() + 1]
                == '/') ==> (final(self).toks() == old(self).toks() && final(self).pos()
                == next_newline(old(self).src(), old(self).pos() + 2) && final(self).pos() > old(self).pos()),
            !(old(self).pos() + 1 < old(self).src().len() && old(self).src()[old(self).pos() + 1]
                == '/') ==> (final(self).pos() == old(self).pos() + 1 && final(self).toks() == old(self).toks().push(
                tok_at(
                    TokenType::SLASH,
                    seq![old(self).src()[old(self).pos()]],
                    ObjectV::Nil,
                    old(self).src(),
                    old(self).pos(),
                ),
            )),
    {
        let ghost src = self.src();
        if self.peek('/') {
            self.empty_next();
            self.empty_next();
            let ghost p2 = self.pos();
            proof {
                lemma_next_newline_bounds(src, p2);
            }
            while !self.is_eof() && self.at() != '\n'
                invariant
                    self.inv(),
                    self.src() == src,
                    self.fname() == old(self).fname(),
                    self.toks() == old(self).toks(),
                    p2 <= self.pos() <= src.len(),
                    next_newline(src, p2) == next_newline(src, self.pos()),
                decreases src.len() - self.pos(),
            {
                self.empty_next();
            }
            proof {
                if self.pos() < src.len() {
                    assert(next_newline(src, self.pos()) == self.pos());
                } else {
                    assert(next_newline(src, self.pos()) == src.len());
                }
            }
        } else {
            self.add_token(TokenType::SLASH);
        }
    }

    /// At an opening quote: consumes up to the matching quote and emits the
    /// STRING token whose lexeme and literal are the exact enclosed text;
    /// reaching the end of the source first is a fatal lexer error at the
    /// opening quote.
    #[verifier::loop_isolation(false)]
    fn string(&mut self) -> (r: Result<(), LexerError>)
        requires
            old(self).inv(),
            old(self).pos() < old(self).src().len(),
            old(self).src()[old(self).pos()] == '"',
        ensures
            final(self).inv(),
            final(self).src() == old(self).src(),
            final(self).fname() == old(self).fname(),
            match string_end(old(self).src(), old(self).pos() + 1) {
                Some(q) => r is Ok && final(self).pos() == q + 1 && final(self).pos() > old(self).pos() && final(self).toks() == old(self).toks().push(
                    tok_at(
                        TokenType::STRING,
                        old(self).src().subrange(old(self).pos() + 1, q),
                        ObjectV::Str(old(self).src().subrange(old(self).pos() + 1, q)),
                        old(self).src(),
                        old(self).pos(),
                    ),
                ),
                None => r matches Err(e) && e@ == spec_lexer_error(
                    line_at(old(self).src(), old(self).pos()),
                    col_at(old(self).src(), old(self).pos()),
                    LexerErrorTypesV::UnexpectedEndOfString,
                    old(self).fname(),
                    old(self).src(),
                ),
            },
    {
        let ghost src = self.src();
        let ghost p0 = self.pos();
        let start_line = self.line;
        let start_col = self.offset;
        self.empty_next();
        let mut buf: Vec<char> = Vec::new();
        while !self.is_eof() && self.at() != '"'
            invariant
                self.inv(),
                self.src() == src,
                self.fname() == old(self).fname(),
                self.toks() == old(self).toks(),
                p0 + 1 <= self.pos() <= src.len(),
                buf@ == src.subrange(p0 + 1, self.pos()),
                string_end(src, p0 + 1) == string_end(src, self.pos()),
            decreases src.len() - self.pos(),
        {
            let c = self.at();
            buf.push(c);
            if c == '\n' {
                self.next_line();
            } else {
                self.empty_next();
            }
            proof {
                assert(buf@ =~= src.subrange(p0 + 1, self.pos()));
            }
        }
        if self.is_eof() {
            let source_copy = clone_chars(&self.source);
            return Err(
                LexerError::new(
                    start_line,
                    start_col,
                    LexerErrorTypes::UnexpectedEndOfString,
                    self.file_name.clone(),
                    source_copy,
                ),
            );
        }
        let lexeme = chars_to_string(&buf);
        let literal = chars_to_string(&buf);
        self.add_string_token(Object::Str(literal), TokenType::STRING, lexeme, start_line, start_col);
        self.empty_next();
        Ok(())
    }

    /// At a digit: consumes a maximal digit run, optionally a point followed
    /// by a further digit run, parses the lexeme as an IEEE-754 binary64
    /// value, and emits the NUMBER token. A point with no digit after it is
    /// a fatal lexer error at the point.
    #[verifier::loop_isolation(false)]
    fn number(&mut self) -> (r: Result<(), LexerError>)
        requires
            old(self).inv(),
            old(self).pos() < old(self).src().len(),
            is_digit_char(old(self).src()[old(self).pos()]),
        ensures
            final(self).inv(),
            final(self).src() == old(self).src(),
            final(self).fname() == old(self).fname(),
            ({
                let src = old(self).src();
                let p0 = old(self).pos();
                let d1 = digits_end(src, p0);
                if d1 < src.len() && src[d1] == '.' && d1 + 1 < src.len() && is_digit_char(
                    src[d1 + 1],
                ) {
                    let d2 = digits_end(src, d1 + 1);
                    r is Ok && final(self).pos() == d2 && final(self).pos() > p0 && final(self).toks() == old(self).toks().push(
                        tok_at(
                            TokenType::NUMBER,
                            src.subrange(p0, d2),
                            ObjectV::Num(number_bits_of(src.subrange(p0, d2))),
                            src,
                            p0,
                        ),
                    )
                } else if d1 < src.len() && src[d1] == '.' {
                    r matches Err(e) && e@ == spec_lexer_error(
                        line_at(src, d1),
                        col_at(src, d1),
                        LexerErrorTypesV::InvalidFloatingPoint,
                        old(self).fname(),
                        src,
                    )
                } else {
                    r is Ok && final(self).pos() == d1 && final(self).pos() > p0 && final(self).toks() == old(self).toks().push(
                        tok_at(
                            TokenType::NUMBER,
                            src.subrange(p0, d1),
                            ObjectV::Num(number_bits_of(src.subrange(p0, d1))),
                            src,
                            p0,
                        ),
                    )
                }
            }),
    {
        let ghost src = self.src();
        let ghost p0 = self.pos();
        let start_line = self.line;
        let start_col = self.offset;
        proof {
            lemma_digits_end_bounds(src, p0);
        }
        let mut buf: Vec<char> = Vec::new();
        while !self.is_eof() && self.is_digit(self.at())
            invariant
                self.inv(),
                self.src() == src,
                self.fname() == old(self).fname(),
                self.toks() == old(self).toks(),
                p0 <= self.pos() <= src.len(),
                buf@ == src.subrange(p0, self.pos()),
                digits_end(src, p0) == digits_end(src, self.pos()),
            decreases src.len() - self.pos(),
        {
            let c = self.at();
            buf.push(c);
            self.empty_next();
            proof {
                assert(buf@ =~= src.subrange(p0, self.pos()));
            }
        }
        proof {
            assert(self.pos() == digits_end(src, p0));
        }
        let ghost d1 = self.pos();
        if !self.is_eof() && self.at() == '.' {
            let nxt = self.peak_next();
            if self.is_digit(nxt) {
                buf.push('.');
                self.empty_next();
                proof {
                    assert(buf@ =~= src.subrange(p0, self.pos()));
                    lemma_digits_end_bounds(src, d1 + 1);
                }
                while !self.is_eof() && self.is_digit(self.at())
                    invariant
                        self.inv(),
                        self.src() == src,
                        self.fname() == old(self).fname(),
                        self.toks() == old(self).toks(),
                        d1 + 1 <= self.pos() <= src.len(),
                        buf@ == src.subrange(p0, self.pos()),
                        digits_end(src, d1 + 1) == digits_end(src, self.pos()),
                    decreases src.len() - self.pos(),
                {
                    let c = self.at();
                    buf.push(c);
                    self.empty_next();
                    proof {
                        assert(buf@ =~= src.subrange(p0, self.pos()));
                    }
                }
                proof {
                    assert(self.pos() == digits_end(src, d1 + 1));
                }
            } else {
                let source_copy = clone_chars(&self.source);
                return Err(
                    LexerError::new(
                        self.line,
                        self.offset,
                        LexerErrorTypes::InvalidFloatingPoint(),
                        self.file_name.clone(),
                        source_copy,
                    ),
                );
            }
        }
        let ghost lexg = buf@;
        proof {
            lemma_digits_end_bounds(src, p0);
            if d1 < src.len() && src[d1] == '.' {
                lemma_digits_end_bounds(src, d1 + 1);
                let i = d1 - p0;
                assert(lexg[i] == '.');
                assert(all_digits_range(lexg, 0, i));
                assert(all_digits_range(lexg, i + 1, lexg.len() as int));
                assert(is_number_lexeme(lexg));
            } else {
                assert(all_digits_range(lexg, 0, lexg.len() as int));
                assert(is_number_lexeme(lexg));
            }
        }
        let lexeme = chars_to_string(&buf);
        match num_parse(lexeme.as_str()) {
            Some(bits) => {
                self.add_string_token(
                    Object::Num(bits),
                    TokenType::NUMBER,
                    lexeme,
                    start_line,
                    start_col,
                );
                Ok(())
            },
            None => {
                proof {
                    assert(false);
                }
                let source_copy = clone_chars(&self.source);
                Err(
                    LexerError::new(
                        start_line,
                        start_col,
                        LexerErrorTypes::InvalidNumber(lexeme),
                        self.file_name.clone(),
                        source_copy,
                    ),
                )
            },
        }
    }

    /// At an identifier head: consumes the maximal identifier run, looks the
    /// text up in the keyword table, and emits the keyword or IDENTIFIER
    /// token.
    #[verifier::loop_isolation(false)]
    fn identifier(&mut self)
        requires
            old(self).inv(),
            old(self).pos() < old(self).src().len(),
            is_alpha_char(old(self).src()[old(self).pos()]),
        ensures
            final(self).inv(),
            final(self).src() == old(self).src(),
            final(self).fname() == old(self).fname(),
            final(self).pos() == ident_end(old(self).src(), old(self).pos()),
            final(self).pos() > old(self).pos(),
            final(self).toks() == old(self).toks().push(
                tok_at(
                    spec_keyword_type(
                        old(self).src().subrange(
                            old(self).pos(),
                            ident_end(old(self).src(), old(self).pos()),
                        ),
                    ),
                    old(self).src().subrange(
                        old(self).pos(),
                        ident_end(old(self).src(), old(self).pos()),
                    ),
                    ObjectV::Nil,
                    old(self).src(),
                    old(self).pos(),
                ),
            ),
    {
        let ghost src = self.src();
        let ghost p0 = self.pos();
        let start_line = self.line;
        let start_col = self.offset;
        proof {
            lemma_ident_end_bounds(src, p0);
        }
        let mut buf: Vec<char> = Vec::new();
        while !self.is_eof() && self.is_alpha_numeric(self.at())
            invariant
                self.inv(),
                self.src() == src,
                self.fname() == old(self).fname(),
                self.toks() == old(self).toks(),
                p0 <= self.pos() <= src.len(),
                buf@ == src.subrange(p0, self.pos()),
                ident_end(src, p0) == ident_end(src, self.pos()),
            decreases src.len() - self.pos(),
        {
            let c = self.at();
            buf.push(c);
            self.empty_next();
            proof {
                assert(buf@ =~= src.subrange(p0, self.pos()));
            }
        }
        proof {
            assert(self.pos() == ident_end(src, p0));
        }
        let ttype = keyword_type(&buf);
        let text = chars_to_string(&buf);
        self.add_string_token(Object::Nil, ttype, text, start_line, start_col);
    }

    /// Classifies and consumes one construct at the cursor: whitespace, one
    /// token, a comment, or a fatal lexer error.
    fn scan_token(&mut self) -> (r: Result<(), LexerError>)
        requires
            old(self).inv(),
            old(self).pos() < old(self).src().len(),
        ensures
            final(self).inv(),
            final(self).src() == old(self).src(),
            final(self).fname() == old(self).fname(),
            match r {
                Ok(_) => final(self).pos() > old(self).pos() && scan_join(
                    final(self).toks(),
                    spec_scan(old(self).src(), final(self).pos()),
                ) == scan_join(old(self).toks(), spec_scan(old(self).src(), old(self).pos())),
                Err(e) => spec_scan(old(self).src(), old(self).pos()) matches Err(se) && e@
                    == spec_lexer_error(
                    se.line,
                    se.column,
                    se.kind,
                    old(self).fname(),
                    old(self).src(),
                ),
            },
    {
        let ghost src = self.src();
        let ghost p0 = self.pos();
        let ghost pre = self.toks();
        let c = self.at();
        if c == '\n' {
            self.next_line();
            return Ok(());
        }
        if c == ' ' {
            self.empty_next();
            return Ok(());
        }
        if c == '(' || c == ')' || c == '{' || c == '}' || c == '+' || c == '-' || c == '*' || c
            == '.' || c == ',' || c == ';' {
            let tok_type = if c == '(' {
                TokenType::LEFTPAREN
            } else if c == ')' {
                TokenType::RIGHTPAREN
            } else if c == '{' {
                TokenType::LEFTBRACE
            } else if c == '}' {
                TokenType::RIGHTBRACE
            } else if c == '+' {
                TokenType::PLUS
            } else if c == '-' {
                TokenType::MINUS
            } else if c == '*' {
                TokenType::STAR
            } else if c == '.' {
                TokenType::DOT
            } else if c == ',' {
                TokenType::COMMA
            } else {
                TokenType::SEMICOLON
            };
            self.add_token(tok_type);
            proof {
                lemma_join_push(
                    pre,
                    tok_at(single_char_type(c), seq![c], ObjectV::Nil, src, p0),
                    spec_scan(src, p0 + 1),
                );
            }
            return Ok(());
        }
        if c == '!' || c == '=' || c == '<' || c == '>' {
            let type_true = if c == '!' {
                TokenType::BANGEQUAL
            } else if c == '=' {
                TokenType::EQUALEQUAL
            } else if c == '<' {
                TokenType::LESSEQUAL
            } else {
                TokenType::GREATEREQUAL
            };
            let type_false = if c == '!' {
                TokenType::BANG
            } else if c == '=' {
                TokenType::EQUAL
            } else if c == '<' {
                TokenType::LESS
            } else {
                TokenType::GREATER
            };
            self.add_conditional_token('=', type_true, type_false);
            proof {
                if p0 + 1 < src.len() && src[p0 + 1] == '=' {
                    lemma_join_push(
                        pre,
                        tok_at(eq_op_type(c), seq![c, '='], ObjectV::Nil, src, p0),
                        spec_scan(src, p0 + 2),
                    );
                } else {
                    lemma_join_push(
                        pre,
                        tok_at(lone_op_type(c), seq![c], ObjectV::Nil, src, p0),
                        spec_scan(src, p0 + 1),
                    );
                }
            }
            return Ok(());
        }
        if c == '/' {
            self.check_for_comments();
            proof {
                if p0 + 1 < src.len() && src[p0 + 1] == '/' {
                    lemma_next_newline_bounds(src, p0 + 2);
                } else {
                    lemma_join_push(
                        pre,
                        tok_at(TokenType::SLASH, seq![c], ObjectV::Nil, src, p0),
                        spec_scan(src, p0 + 1),
                    );
                }
            }
            return Ok(());
        }
        if c == '"' {
            let res = self.string();
            proof {
                lemma_string_end_bounds(src, p0 + 1);
                match string_end(src, p0 + 1) {
                    Some(q) => {
                        lemma_join_push(
                            pre,
                            tok_at(
                                TokenType::STRING,
                                src.subrange(p0 + 1, q),
                                ObjectV::Str(src.subrange(p0 + 1, q)),
                                src,
                                p0,
                            ),
                            spec_scan(src, q + 1),
                        );
                    },
                    None => {},
                }
            }
            return match res {
                Ok(_) => Ok(()),
                Err(e) => Err(e),
            };
        }
        if self.is_digit(c) {
            let res = self.number();
            proof {
                lemma_digits_end_bounds(src, p0);
                let d1 = digits_end(src, p0);
                if d1 < src.len() && src[d1] == '.' && d1 + 1 < src.len() && is_digit_char(
                    src[d1 + 1],
                ) {
                    lemma_digits_end_bounds(src, d1 + 1);
                    let d2 = digits_end(src, d1 + 1);
                    lemma_join_push(
                        pre,
                        tok_at(
                            TokenType::NUMBER,
                            src.subrange(p0, d2),
                            ObjectV::Num(number_bits_of(src.subrange(p0, d2))),
                            src,
                            p0,
                        ),
                        spec_scan(src, d2),
                    );
                } else if !(d1 < src.len() && src[d1] == '.') {
                    lemma_join_push(
                        pre,
                        tok_at(
                            TokenType::NUMBER,
                            src.subrange(p0, d1),
                            ObjectV::Num(number_bits_of(src.subrange(p0, d1))),
                            src,
                            p0,
                        ),
                        spec_scan(src, d1),
                    );
                }
            }
            return match res {
                Ok(_) => Ok(()),
                Err(e) => Err(e),
            };
        }
        if self.is_alpha(c) {
            self.identifier();
            proof {
                lemma_ident_end_bounds(src, p0);
                let e = ident_end(src, p0);
                lemma_join_push(
                    pre,
                    tok_at(
                        spec_keyword_type(src.subrange(p0, e)),
                        src.subrange(p0, e),
                        ObjectV::Nil,
                        src,
                        p0,
                    ),
                    spec_scan(src, e),
                );
            }
            return Ok(());
        }
        let source_copy = clone_chars(&self.source);
        Err(
            LexerError::new(
                self.line,
                self.offset,
                LexerErrorTypes::UnexpectedCharacter(c),
                self.file_name.clone(),
                source_copy,
            ),
        )
    }

    /// Scans the whole source: the token sequence with a terminal EOF token
    /// appended, or the first lexer error, exactly as `spec_scan` gives
    /// them.
    #[verifier::loop_isolation(false)]
    pub fn scan_tokens(self) -> (r: Result<Vec<Token>, LexerError>)
        requires
            self.inv(),
            self.pos() == 0,
            self.toks() == Seq::<TokenV>::empty(),
        ensures
            match (r, spec_scan(self.src(), 0)) {
                (Ok(v), Ok(ts)) => v@.map_values(|t: Token| t@) == ts.push(eof_token(self.src()))
                    && stream_wf(v@.map_values(|t: Token| t@)) && toks_wf(
                    v@.map_values(|t: Token| t@),
                ),
                (Err(e), Err(se)) => e@ == spec_lexer_error(
                    se.line,
                    se.column,
                    se.kind,
                    self.fname(),
                    self.src(),
                ),
                _ => false,
            },
    {
        let mut this = self;
        let ghost src = this.src();
        let ghost fname = this.fname();
        proof {
            match spec_scan(src, 0) {
                Ok(ts) => {
                    assert(Seq::<TokenV>::empty() + ts =~= ts);
                },
                Err(_) => {},
            }
        }
        while !this.is_eof()
            invariant
                this.inv(),
                this.src() == src,
                this.fname() == fname,
                scan_join(this.toks(), spec_scan(src, this.pos())) == spec_scan(src, 0),
            decreases src.len() - this.pos(),
        {
            match this.scan_token() {
                Ok(_) => {},
                Err(e) => {
                    return Err(e);
                },
            }
        }
        proof {
            assert(this.pos() == src.len());
            match spec_scan(src, this.pos()) {
                Ok(ts) => {
                    assert(this.toks() + ts =~= this.toks());
                },
                Err(_) => {},
            }
            lemma_scan_tokens_ordinary(src, 0);
        }
        let ghost pre = this.toks();
        this.tokens.push(
            Token::new(TokenType::EOF, String::new(), Object::Nil, this.line, this.offset),
        );
        proof {
            assert(this.toks() =~= pre.push(this.tokens@[this.tokens@.len() - 1]@));
            assert(this.toks() =~= pre.push(eof_token(src)));
        }
        Ok(this.tokens)
    }
}

/// Whether re-scanning a token's lexeme reproduces the token: one token
/// again, of the same kind, with the same lexeme and the same literal (at
/// the origin position). STRING tokens are exempt: their lexeme is
/// normalized, the enclosing quotes are dropped.
pub open spec fn rescan_ok(t: TokenV) -> bool {
    t.ttype == TokenType::STRING || spec_scan(t.lexeme, 0) == Ok::<Seq<TokenV>, ScanErrorV>(
        seq![
            TokenV {
                ttype: t.ttype,
                lexeme: t.lexeme,
                literal: t.literal,
                line: 0,
                position: 0,
            },
        ],
    )
}

proof fn lemma_digits_end_is(s: Seq<char>, a: int, k: int)
    requires
        0 <= a <= k <= s.len(),
        all_digits_range(s, a, k),
        k < s.len() ==> !is_digit_char(s[k]),
    ensures
        digits_end(s, a) == k,
    decreases k - a,
{
    if a < k {
        lemma_digits_end_is(s, a + 1, k);
    }
}

proof fn lemma_ident_end_is(s: Seq<char>, a: int, k: int)
    requires
        0 <= a <= k <= s.len(),
        forall|j: int| a <= j < k ==> is_alnum_char(#[trigger] s[j]),
        k < s.len() ==> !is_alnum_char(s[k]),
    ensures
        ident_end(s, a) == k,
    decreases k - a,
{
    if a < k {
        lemma_ident_end_is(s, a + 1, k);
    }
}

proof fn lemma_rescan_one_char(c: char, t: TokenType)
    requires
        !(c == '\n' || c == ' '),
        is_single_char(c) ==> t == single_char_type(c),
        !is_single_char(c) && (c == '!' || c == '=' || c == '<' || c == '>') ==> t == lone_op_type(
            c,
        ),
        !is_single_char(c) && !(c == '!' || c == '=' || c == '<' || c == '>') ==> c == '/' && t
            == TokenType::SLASH,
    ensures
        spec_scan(seq![c], 0) == Ok::<Seq<TokenV>, ScanErrorV>(
            seq![TokenV { ttype: t, lexeme: seq![c], literal: ObjectV::Nil, line: 0, position: 0 }],
        ),
{
    let lex = seq![c];
    assert(lex.len() == 1 && lex[0] == c);
    assert(spec_scan(lex, 1) == Ok::<Seq<TokenV>, ScanErrorV>(Seq::empty()));
    assert(line_at(lex, 0) == 0 && col_at(lex, 0) == 0);
    let tok = TokenV { ttype: t, lexeme: lex, literal: ObjectV::Nil, line: 0, position: 0 };
    assert(seq![tok] + Seq::<TokenV>::empty() =~= seq![tok]);
    if is_single_char(c) {
        assert(tok_at(single_char_type(c), seq![c], ObjectV::Nil, lex, 0) == tok);
    }
}

proof fn lemma_rescan_eq_op(c: char)
    requires
        c == '!' || c == '=' || c == '<' || c == '>',
    ensures
        spec_scan(seq![c, '='], 0) == Ok::<Seq<TokenV>, ScanErrorV>(
            seq![
                TokenV {
                    ttype: eq_op_type(c),
                    lexeme: seq![c, '='],
                    literal: ObjectV::Nil,
                    line: 0,
                    position: 0,
                },
            ],
        ),
{
    let lex = seq![c, '='];
    assert(lex.len() == 2 && lex[0] == c && lex[1] == '=');
    assert(spec_scan(lex, 2) == Ok::<Seq<TokenV>, ScanErrorV>(Seq::empty()));
    assert(line_at(lex, 0) == 0 && col_at(lex, 0) == 0);
    let tok = TokenV {
        ttype: eq_op_type(c),
        lexeme: lex,
        literal: ObjectV::Nil,
        line: 0,
        position: 0,
    };
    assert(seq![tok] + Seq::<TokenV>::empty() =~= seq![tok]);
}

proof fn lemma_rescan_number(lex: Seq<char>)
    requires
        is_number_lexeme(lex),
    ensures
        spec_scan(lex, 0) == Ok::<Seq<TokenV>, ScanErrorV>(
            seq![
                TokenV {
                    ttype: TokenType::NUMBER,
                    lexeme: lex,
                    literal: ObjectV::Num(number_bits_of(lex)),
                    line: 0,
                    position: 0,
                },
            ],
        ),
{
    let n = lex.len() as int;
    assert(is_digit_char(lex[0]));
    let tok = TokenV {
        ttype: TokenType::NUMBER,
        lexeme: lex,
        literal: ObjectV::Num(number_bits_of(lex)),
        line: 0,
        position: 0,
    };
    assert(line_at(lex, 0) == 0 && col_at(lex, 0) == 0);
    if all_digits_range(lex, 0, n) {
        lemma_digits_end_is(lex, 0, n);
        assert(lex.subrange(0, n) =~= lex);
        assert(spec_scan(lex, n) == Ok::<Seq<TokenV>, ScanErrorV>(Seq::empty()));
        assert(seq![tok] + Seq::<TokenV>::empty() =~= seq![tok]);
    } else {
        let i = choose|i: int|
            1 <= i <= lex.len() - 2 && lex[i] == '.' && all_digits_range(lex, 0, i)
                && all_digits_range(lex, i + 1, n);
        assert(!is_digit_char('.')) by {
            assert('.' as u32 == 46);
        }
        lemma_digits_end_is(lex, 0, i);
        lemma_digits_end_is(lex, i + 1, n);
        assert(is_digit_char(lex[i + 1]));
        assert(lex.subrange(0, n) =~= lex);
        assert(spec_scan(lex, n) == Ok::<Seq<TokenV>, ScanErrorV>(Seq::empty()));
        assert(seq![tok] + Seq::<TokenV>::empty() =~= seq![tok]);
    }
}

proof fn lemma_rescan_identifier(lex: Seq<char>)
    requires
        lex.len() >= 1,
        is_alpha_char(lex[0]),
        forall|j: int| 0 <= j < lex.len() ==> is_alnum_char(#[trigger] lex[j]),
    ensures
        spec_scan(lex, 0) == Ok::<Seq<TokenV>, ScanErrorV>(
            seq![
                TokenV {
                    ttype: spec_keyword_type(lex),
                    lexeme: lex,
                    literal: ObjectV::Nil,
                    line: 0,
                    position: 0,
                },
            ],
        ),
{
    let n = lex.len() as int;
    lemma_ident_end_is(lex, 0, n);
    assert(lex.subrange(0, n) =~= lex);
    assert(spec_scan(lex, n) == Ok::<Seq<TokenV>, ScanErrorV>(Seq::empty()));
    assert(line_at(lex, 0) == 0 && col_at(lex, 0) == 0);
    let tok = TokenV {
        ttype: spec_keyword_type(lex),
        lexeme: lex,
        literal: ObjectV::Nil,
        line: 0,
        position: 0,
    };
    assert(seq![tok] + Seq::<TokenV>::empty() =~= seq![tok]);
}

/// The lexeme round trip: every token a scan emits, except a STRING token
/// (whose lexeme is normalized: the enclosing quotes are dropped) and the
/// empty terminal EOF marker, re-scans to exactly one token of the same
/// kind, with the same lexeme and the same literal. The round trip holds
/// lexeme by lexeme: a bare concatenation of two lexemes may fuse (re-lexing
/// the text of `1` `2` as one piece gives the single number `12`).
pub proof fn lemma_lexeme_round_trip(src: Seq<char>, pos: int)
    ensures
        spec_scan(src, pos) matches Ok(ts) ==> forall|k: int|
            0 <= k < ts.len() ==> rescan_ok(#[trigger] ts[k]),
    decreases src.len() - pos,
{
    if 0 <= pos < src.len() {
        let c = src[pos];
        lemma_lexeme_round_trip(src, pos + 1);
        if pos + 2 <= src.len() {
            lemma_lexeme_round_trip(src, pos + 2);
        }
        if c == '\n' || c == ' ' {
            // nothing is emitted here
        } else if is_single_char(c) {
            lemma_rescan_one_char(c, single_char_type(c));
            lemma_cons_rescan(
                tok_at(single_char_type(c), seq![c], ObjectV::Nil, src, pos),
                spec_scan(src, pos + 1),
            );
        } else if c == '!' || c == '=' || c == '<' || c == '>' {
            if pos + 1 < src.len() && src[pos + 1] == '=' {
                lemma_rescan_eq_op(c);
                lemma_cons_rescan(
                    tok_at(eq_op_type(c), seq![c, '='], ObjectV::Nil, src, pos),
                    spec_scan(src, pos + 2),
                );
            } else {
                lemma_rescan_one_char(c, lone_op_type(c));
                lemma_cons_rescan(
                    tok_at(lone_op_type(c), seq![c], ObjectV::Nil, src, pos),
                    spec_scan(src, pos + 1),
                );
            }
        } else if c == '/' {
            if pos + 1 < src.len() && src[pos + 1] == '/' {
                let j = next_newline(src, pos + 2);
                lemma_next_newline_bounds(src, pos + 2);
                if pos < j <= src.len() {
                    lemma_lexeme_round_trip(src, j);
                }
            } else {
                lemma_rescan_one_char(c, TokenType::SLASH);
                lemma_cons_rescan(
                    tok_at(TokenType::SLASH, seq![c], ObjectV::Nil, src, pos),
                    spec_scan(src, pos + 1),
                );
            }
        } else if c == '"' {
            lemma_string_end_bounds(src, pos + 1);
            match string_end(src, pos + 1) {
                Some(q) => {
                    if pos < q < src.len() {
                        lemma_lexeme_round_trip(src, q + 1);
                        let lexs = src.subrange(pos + 1, q);
                        lemma_cons_rescan(
                            tok_at(TokenType::STRING, lexs, ObjectV::Str(lexs), src, pos),
                            spec_scan(src, q + 1),
                        );
                    }
                },
                None => {},
            }
        } else if is_digit_char(c) {
            lemma_digits_end_bounds(src, pos);
            let d1 = digits_end(src, pos);
            if d1 < src.len() && src[d1] == '.' {
                if d1 + 1 < src.len() && is_digit_char(src[d1 + 1]) {
                    lemma_digits_end_bounds(src, d1 + 1);
                    let d2 = digits_end(src, d1 + 1);
                    if pos < d2 <= src.len() {
                        lemma_lexeme_round_trip(src, d2);
                        let lex = src.subrange(pos, d2);
                        assert(is_number_lexeme(lex)) by {
                            let i = d1 - pos;
                            assert(lex[i] == '.');
                            assert(lex.len() == d2 - pos);
                            assert(forall|j: int|
                                0 <= j < i ==> is_digit_char(#[trigger] lex[j]) && lex[j] == src[pos
                                    + j]);
                            assert(forall|j: int|
                                i + 1 <= j < lex.len() ==> is_digit_char(#[trigger] lex[j])
                                    && lex[j] == src[pos + j]);
                            assert(1 <= i <= lex.len() - 2 && lex[i] == '.' && all_digits_range(
                                lex,
                                0,
                                i,
                            ) && all_digits_range(lex, i + 1, lex.len() as int));
                        }
                        lemma_rescan_number(lex);
                        lemma_cons_rescan(
                            tok_at(
                                TokenType::NUMBER,
                                lex,
                                ObjectV::Num(number_bits_of(lex)),
                                src,
                                pos,
                            ),
                            spec_scan(src, d2),
                        );
                    }
                }
            } else if pos < d1 <= src.len() {
                lemma_lexeme_round_trip(src, d1);
                let lex = src.subrange(pos, d1);
                assert(is_number_lexeme(lex)) by {
                    assert(forall|j: int|
                        0 <= j < lex.len() ==> is_digit_char(#[trigger] lex[j]) && lex[j] == src[pos
                            + j]);
                }
                lemma_rescan_number(lex);
                lemma_cons_rescan(
                    tok_at(TokenType::NUMBER, lex, ObjectV::Num(number_bits_of(lex)), src, pos),
                    spec_scan(src, d1),
                );
            }
        } else if is_alpha_char(c) {
            lemma_ident_end_bounds(src, pos);
            let e = ident_end(src, pos);
            if pos < e <= src.len() {
                lemma_lexeme_round_trip(src, e);
                let lex = src.subrange(pos, e);
                assert(lex.len() >= 1 && is_alpha_char(lex[0])) by {
                    assert(lex[0] == src[pos]);
                }
                assert(forall|j: int|
                    0 <= j < lex.len() ==> is_alnum_char(#[trigger] lex[j]) && lex[j] == src[pos
                        + j]);
                lemma_rescan_identifier(lex);
                lemma_cons_rescan(
                    tok_at(spec_keyword_type(lex), lex, ObjectV::Nil, src, pos),
                    spec_scan(src, e),
                );
            }
        }
    }
}

/// Prepending a token that itself re-scans (or is exempt) to a tail whose
/// tokens all re-scan keeps the round trip for the whole sequence.
proof fn lemma_cons_rescan(t: TokenV, rest: Result<Seq<TokenV>, ScanErrorV>)
    requires
        rescan_ok(t),
        rest matches Ok(ts) ==> forall|k: int| 0 <= k < ts.len() ==> rescan_ok(#[trigger] ts[k]),
    ensures
        cons_tok(t, rest) matches Ok(ts) ==> forall|k: int|
            0 <= k < ts.len() ==> rescan_ok(#[trigger] ts[k]),
{
    match rest {
        Ok(ts) => {
            let all = seq![t] + ts;
            assert forall|k: int| 0 <= k < all.len() implies rescan_ok(#[trigger] all[k]) by {
                if k == 0 {
                    assert(all[0] == t);
                } else {
                    assert(all[k] == ts[k - 1]);
                }
            }
        },
        Err(_) => {},
    }
}

} // verus!
