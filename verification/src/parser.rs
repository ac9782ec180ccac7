//! The recursive-descent parser: a precedence-ordered grammar over the token
//! sequence, folding same-precedence operators left-to-right.
//!
//! Grammar, highest rule first:
//! program := declaration* EOF; declaration := varDecl | statement;
//! statement := printStmt | exprStmt; expression := equality;
//! equality := comparison (("!=" | "==") comparison)*;
//! comparison := term ((">" | ">=" | "<" | "<=") term)*;
//! term := factor (("-" | "+") factor)*; factor := unary (("/" | "*") unary)*;
//! unary := ("!" | "-") unary | primary;
//! primary := TRUE | FALSE | NIL | NUMBER | STRING | IDENTIFIER | "(" expression ")".
//!
//! The parser stops at, and returns, the first syntax error; `synchronize`
//! is the recovery step that skips to the next statement boundary.
//!
//! The grammar is mirrored below by one spec function per rule, each mapping
//! the token sequence and a position to the parsed node and the next
//! position, or the error. The measure of each is the pair (tokens left,
//! rule rank); branches guard every recursive call on the progress it needs,
//! and `lemma_parse_progress` shows those guards always hold.

use vstd::prelude::*;
use crate::errors::syntax_error::SyntaxError;
use crate::errors::syntax_error::SyntaxErrorTypes;
use crate::errors::syntax_error::SyntaxErrorTypesV;
use crate::errors::syntax_error::SyntaxErrorV;
use crate::errors::syntax_error::spec_syntax_error;
use crate::expr::BinaryExpr;
use crate::expr::Expr;
use crate::expr::ExprV;
use crate::expr::GroupingExpr;
use crate::expr::LiteralExpr;
use crate::expr::UnaryExpr;
use crate::expr::VariableExpr;
use crate::expr::expr_wf;
use crate::object::Object;
use crate::object::ObjectV;
use crate::stmt::ExpressionStmt;
use crate::stmt::PrintStmt;
use crate::stmt::Stmt;
use crate::stmt::StmtV;
use crate::stmt::VarStmt;
use crate::stmt::stmt_wf;
use crate::text::chars_to_string;
use crate::token::Token;
use crate::token::TokenType;
use crate::token::TokenV;

verus! {

/// A well-formed token stream as the scanner emits it: nonempty, with the
/// end-of-input marker as its last token and nowhere else.
pub open spec fn stream_wf(toks: Seq<TokenV>) -> bool {
    &&& toks.len() > 0
    &&& toks[toks.len() - 1].ttype == TokenType::EOF
    &&& forall|k: int| 0 <= k < toks.len() - 1 ==> (#[trigger] toks[k].ttype) != TokenType::EOF
}

/// Token literals never hold the internal arithmetic-error sentinel.
pub open spec fn toks_wf(toks: Seq<TokenV>) -> bool {
    forall|k: int| 0 <= k < toks.len() ==> !((#[trigger] toks[k].literal) is ArithmeticError)
}

/// The error for a state the grammar cannot reach on a well-formed stream.
pub open spec fn internal_parse_error() -> SyntaxErrorV {
    spec_syntax_error(0, 0, SyntaxErrorTypesV::UnexpectedToken(Seq::empty()))
}

/// The unexpected-token error at a token.
pub open spec fn unexpected_token_error(t: TokenV) -> SyntaxErrorV {
    spec_syntax_error(t.line, t.position, SyntaxErrorTypesV::UnexpectedToken(t.lexeme))
}

/// The expected-token error at a token, naming the expected character.
pub open spec fn expected_token_error(t: TokenV, expected: char) -> SyntaxErrorV {
    spec_syntax_error(
        t.line,
        t.position,
        SyntaxErrorTypesV::ExpectedToken(seq![expected], t.lexeme),
    )
}

/// primary := TRUE | FALSE | NIL | NUMBER | STRING | IDENTIFIER
///          | "(" expression ")".
pub open spec fn spec_primary(toks: Seq<TokenV>, i: int) -> Result<(ExprV, int), SyntaxErrorV>
    decreases toks.len() - i, 0int,
{
    if !(0 <= i < toks.len()) {
        Err(internal_parse_error())
    } else {
        let t = toks[i];
        if t.ttype == TokenType::TRUE {
            Ok((ExprV::Literal { value: Some(ObjectV::Bool(true)) }, i + 1))
        } else if t.ttype == TokenType::FALSE {
            Ok((ExprV::Literal { value: Some(ObjectV::Bool(false)) }, i + 1))
        } else if t.ttype == TokenType::NIL {
            Ok((ExprV::Literal { value: Some(ObjectV::Nil) }, i + 1))
        } else if t.ttype == TokenType::NUMBER || t.ttype == TokenType::STRING {
            Ok((ExprV::Literal { value: Some(t.literal) }, i + 1))
        } else if t.ttype == TokenType::IDENTIFIER {
            Ok((ExprV::Variable { name: t }, i + 1))
        } else if t.ttype == TokenType::LEFTPAREN {
            match spec_expression(toks, i + 1) {
                Err(e) => Err(e),
                Ok((inner, j)) => if 0 <= j < toks.len() {
                    if toks[j].ttype == TokenType::RIGHTPAREN {
                        Ok((ExprV::Grouping { expression: Box::new(inner) }, j + 1))
                    } else {
                        Err(expected_token_error(toks[j], ')'))
                    }
                } else {
                    Err(internal_parse_error())
                },
            }
        } else {
            Err(unexpected_token_error(t))
        }
    }
}

/// unary := ("!" | "-") unary | primary.
pub open spec fn spec_unary(toks: Seq<TokenV>, i: int) -> Result<(ExprV, int), SyntaxErrorV>
    decreases toks.len() - i, 1int,
{
    if 0 <= i < toks.len() && (toks[i].ttype == TokenType::BANG || toks[i].ttype
        == TokenType::MINUS) {
        match spec_unary(toks, i + 1) {
            Err(e) => Err(e),
            Ok((right, j)) => Ok(
                (ExprV::Unary { operator: toks[i], right: Box::new(right) }, j),
            ),
        }
    } else {
        spec_primary(toks, i)
    }
}

/// Whether a token type is one of the factor-level operators.
pub open spec fn is_factor_op(t: TokenType) -> bool {
    t == TokenType::SLASH || t == TokenType::STAR
}

/// Whether a token type is one of the term-level operators.
pub open spec fn is_term_op(t: TokenType) -> bool {
    t == TokenType::MINUS || t == TokenType::PLUS
}

/// Whether a token type is one of the comparison-level operators.
pub open spec fn is_comparison_op(t: TokenType) -> bool {
    t == TokenType::GREATEREQUAL || t == TokenType::GREATER || t == TokenType::LESSEQUAL || t
        == TokenType::LESS
}

/// Whether a token type is one of the equality-level operators.
pub open spec fn is_equality_op(t: TokenType) -> bool {
    t == TokenType::BANGEQUAL || t == TokenType::EQUALEQUAL
}

/// factor := unary (("/" | "*") unary)*, folded left.
pub open spec fn spec_factor(toks: Seq<TokenV>, i: int) -> Result<(ExprV, int), SyntaxErrorV>
    decreases toks.len() - i, 3int,
{
    match spec_unary(toks, i) {
        Err(e) => Err(e),
        Ok((e, j)) => if i < j <= toks.len() {
            spec_factor_rest(toks, e, j)
        } else {
            Err(internal_parse_error())
        },
    }
}

/// The left fold of further `("/" | "*") unary` steps onto `e`.
pub open spec fn spec_factor_rest(toks: Seq<TokenV>, e: ExprV, j: int) -> Result<
    (ExprV, int),
    SyntaxErrorV,
>
    decreases toks.len() - j, 2int,
{
    if 0 <= j < toks.len() && is_factor_op(toks[j].ttype) {
        match spec_unary(toks, j + 1) {
            Err(err) => Err(err),
            Ok((right, k)) => if j < k <= toks.len() {
                spec_factor_rest(
                    toks,
                    ExprV::Binary {
                        left: Box::new(e),
                        operator: toks[j],
                        right: Box::new(right),
                    },
                    k,
                )
            } else {
                Err(internal_parse_error())
            },
        }
    } else {
        Ok((e, j))
    }
}

/// term := factor (("-" | "+") factor)*, folded left.
pub open spec fn spec_term(toks: Seq<TokenV>, i: int) -> Result<(ExprV, int), SyntaxErrorV>
    decreases toks.len() - i, 5int,
{
    match spec_factor(toks, i) {
        Err(e) => Err(e),
        Ok((e, j)) => if i < j <= toks.len() {
            spec_term_rest(toks, e, j)
        } else {
            Err(internal_parse_error())
        },
    }
}

/// The left fold of further `("-" | "+") factor` steps onto `e`.
pub open spec fn spec_term_rest(toks: Seq<TokenV>, e: ExprV, j: int) -> Result<
    (ExprV, int),
    SyntaxErrorV,
>
    decreases toks.len() - j, 4int,
{
    if 0 <= j < toks.len() && is_term_op(toks[j].ttype) {
        match spec_factor(toks, j + 1) {
            Err(err) => Err(err),
            Ok((right, k)) => if j < k <= toks.len() {
                spec_term_rest(
                    toks,
                    ExprV::Binary {
                        left: Box::new(e),
                        operator: toks[j],
                        right: Box::new(right),
                    },
                    k,
                )
            } else {
                Err(internal_parse_error())
            },
        }
    } else {
        Ok((e, j))
    }
}

/// comparison := term ((">" | ">=" | "<" | "<=") term)*, folded left.
pub open spec fn spec_comparison(toks: Seq<TokenV>, i: int) -> Result<(ExprV, int), SyntaxErrorV>
    decreases toks.len() - i, 7int,
{
    match spec_term(toks, i) {
        Err(e) => Err(e),
        Ok((e, j)) => if i < j <= toks.len() {
            spec_comparison_rest(toks, e, j)
        } else {
            Err(internal_parse_error())
        },
    }
}

/// The left fold of further comparison steps onto `e`.
pub open spec fn spec_comparison_rest(toks: Seq<TokenV>, e: ExprV, j: int) -> Result<
    (ExprV, int),
    SyntaxErrorV,
>
    decreases toks.len() - j, 6int,
{
    if 0 <= j < toks.len() && is_comparison_op(toks[j].ttype) {
        match spec_term(toks, j + 1) {
            Err(err) => Err(err),
            Ok((right, k)) => if j < k <= toks.len() {
                spec_comparison_rest(
                    toks,
                    ExprV::Binary {
                        left: Box::new(e),
                        operator: toks[j],
                        right: Box::new(right),
                    },
                    k,
                )
            } else {
                Err(internal_parse_error())
            },
        }
    } else {
        Ok((e, j))
    }
}

/// equality := comparison (("!=" | "==") comparison)*, folded left.
pub open spec fn spec_equality(toks: Seq<TokenV>, i: int) -> Result<(ExprV, int), SyntaxErrorV>
    decreases toks.len() - i, 9int,
{
    match spec_comparison(toks, i) {
        Err(e) => Err(e),
        Ok((e, j)) => if i < j <= toks.len() {
            spec_equality_rest(toks, e, j)
        } else {
            Err(internal_parse_error())
        },
    }
}

/// The left fold of further `("!=" | "==") comparison` steps onto `e`.
pub open spec fn spec_equality_rest(toks: Seq<TokenV>, e: ExprV, j: int) -> Result<
    (ExprV, int),
    SyntaxErrorV,
>
    decreases toks.len() - j, 8int,
{
    if 0 <= j < toks.len() && is_equality_op(toks[j].ttype) {
        match spec_comparison(toks, j + 1) {
            Err(err) => Err(err),
            Ok((right, k)) => if j < k <= toks.len() {
                spec_equality_rest(
                    toks,
                    ExprV::Binary {
                        left: Box::new(e),
                        operator: toks[j],
                        right: Box::new(right),
                    },
                    k,
                )
            } else {
                Err(internal_parse_error())
            },
        }
    } else {
        Ok((e, j))
    }
}

/// expression := equality.
pub open spec fn spec_expression(toks: Seq<TokenV>, i: int) -> Result<(ExprV, int), SyntaxErrorV>
    decreases toks.len() - i, 10int,
{
    spec_equality(toks, i)
}

/// Consumes the statement terminator after a parsed statement.
pub open spec fn spec_semicolon(toks: Seq<TokenV>, j: int, s: StmtV) -> Result<
    (StmtV, int),
    SyntaxErrorV,
> {
    if 0 <= j < toks.len() {
        if toks[j].ttype == TokenType::SEMICOLON {
            Ok((s, j + 1))
        } else {
            Err(expected_token_error(toks[j], ';'))
        }
    } else {
        Err(internal_parse_error())
    }
}

/// printStmt := expression ";" (after the PRINT keyword).
pub open spec fn spec_print_statement(toks: Seq<TokenV>, i: int) -> Result<
    (StmtV, int),
    SyntaxErrorV,
>
    decreases toks.len() - i, 11int,
{
    match spec_expression(toks, i) {
        Err(e) => Err(e),
        Ok((e, j)) => spec_semicolon(toks, j, StmtV::Print { expression: e }),
    }
}

/// exprStmt := expression ";".
pub open spec fn spec_expression_statement(toks: Seq<TokenV>, i: int) -> Result<
    (StmtV, int),
    SyntaxErrorV,
>
    decreases toks.len() - i, 11int,
{
    match spec_expression(toks, i) {
        Err(e) => Err(e),
        Ok((e, j)) => spec_semicolon(toks, j, StmtV::Expression { expression: e }),
    }
}

/// statement := printStmt | exprStmt.
pub open spec fn spec_statement(toks: Seq<TokenV>, i: int) -> Result<(StmtV, int), SyntaxErrorV>
    decreases toks.len() - i, 12int,
{
    if 0 <= i < toks.len() && toks[i].ttype == TokenType::PRINT {
        spec_print_statement(toks, i + 1)
    } else {
        spec_expression_statement(toks, i)
    }
}

/// varDecl := IDENTIFIER ("=" expression)? ";" (after the VAR keyword).
pub open spec fn spec_var_declaration(toks: Seq<TokenV>, i: int) -> Result<
    (StmtV, int),
    SyntaxErrorV,
>
    decreases toks.len() - i, 12int,
{
    if !(0 <= i < toks.len()) {
        Err(internal_parse_error())
    } else if toks[i].ttype != TokenType::IDENTIFIER {
        Err(expected_token_error(toks[i], 'i'))
    } else {
        let name = toks[i];
        if i + 1 < toks.len() && toks[i + 1].ttype == TokenType::EQUAL {
            match spec_expression(toks, i + 2) {
                Err(e) => Err(e),
                Ok((e, j)) => spec_semicolon(
                    toks,
                    j,
                    StmtV::Var { name, initializer: Some(e) },
                ),
            }
        } else {
            spec_semicolon(toks, i + 1, StmtV::Var { name, initializer: None })
        }
    }
}

/// declaration := varDecl | statement.
pub open spec fn spec_declaration(toks: Seq<TokenV>, i: int) -> Result<(StmtV, int), SyntaxErrorV>
    decreases toks.len() - i, 13int,
{
    if 0 <= i < toks.len() && toks[i].ttype == TokenType::VAR {
        spec_var_declaration(toks, i + 1)
    } else {
        spec_statement(toks, i)
    }
}

/// program := declaration* EOF; the first syntax error ends the parse.
pub open spec fn spec_program(toks: Seq<TokenV>, i: int) -> Result<Seq<StmtV>, SyntaxErrorV>
    decreases toks.len() - i, 14int,
{
    if !(0 <= i < toks.len()) {
        Ok(Seq::empty())
    } else if toks[i].ttype == TokenType::EOF {
        Ok(Seq::empty())
    } else {
        match spec_declaration(toks, i) {
            Err(e) => Err(e),
            Ok((s, j)) => if i < j <= toks.len() {
                match spec_program(toks, j) {
                    Err(e) => Err(e),
                    Ok(rest) => Ok(seq![s] + rest),
                }
            } else {
                Err(internal_parse_error())
            },
        }
    }
}

/// The position where `synchronize` stops, scanning from `k`: the first
/// position at or past the end marker, or just after a semicolon.
pub open spec fn spec_sync_from(toks: Seq<TokenV>, k: int) -> int
    decreases toks.len() - k,
{
    if k >= toks.len() - 1 {
        k
    } else if 0 <= k - 1 && toks[k - 1].ttype == TokenType::SEMICOLON {
        k
    } else {
        spec_sync_from(toks, k + 1)
    }
}

/// Whether an executable expression parse matches a mathematical one: the
/// same tree and the same next position on success, the same error on
/// failure.
pub open spec fn expr_parse_matches(
    r: Result<Expr, SyntaxError>,
    s: Result<(ExprV, int), SyntaxErrorV>,
    newpos: int,
) -> bool {
    match (r, s) {
        (Ok(e), Ok(p)) => e@ == p.0 && newpos == p.1,
        (Err(e), Err(f)) => e@ == f,
        _ => false,
    }
}

/// Whether an executable statement parse matches a mathematical one.
pub open spec fn stmt_parse_matches(
    r: Result<Stmt, SyntaxError>,
    s: Result<(StmtV, int), SyntaxErrorV>,
    newpos: int,
) -> bool {
    match (r, s) {
        (Ok(st), Ok(p)) => st@ == p.0 && newpos == p.1,
        (Err(e), Err(f)) => e@ == f,
        _ => false,
    }
}

/// The parser: reads the scanner's tokens by index and builds statements.
pub struct Parser {
    tokens: Vec<Token>,
    current: usize,
}

impl Parser {
    /// The token sequence being parsed.
    pub closed spec fn toks(&self) -> Seq<TokenV> {
        self.tokens@.map_values(|t: Token| t@)
    }

    /// The current cursor position.
    pub closed spec fn cur(&self) -> int {
        self.current as int
    }

    /// The parser's invariant: a well-formed stream and a cursor that never
    /// passes the end marker.
    pub open spec fn inv(&self) -> bool {
        &&& stream_wf(self.toks())
        &&& toks_wf(self.toks())
        &&& 0 <= self.cur() < self.toks().len()
    }

    pub fn new(tokens: Vec<Token>) -> (r: Parser)
        requires
            stream_wf(tokens@.map_values(|t: Token| t@)),
            toks_wf(tokens@.map_values(|t: Token| t@)),
        ensures
            r.inv(),
            r.toks() == tokens@.map_values(|t: Token| t@),
            r.cur() == 0,
    {
        Parser { tokens, current: 0 }
    }

    /// Whether the cursor stands on the end-of-input marker.
    fn is_at_end(&self) -> (r: bool)
        requires
            self.inv(),
        ensures
            r == (self.toks()[self.cur()].ttype == TokenType::EOF),
            r == (self.cur() == self.toks().len() - 1),
    {
        let r = self.tokens[self.current].ttype == TokenType::EOF;
        proof {
            if self.cur() < self.toks().len() - 1 {
                assert(self.toks()[self.cur()].ttype != TokenType::EOF);
            }
        }
        r
    }

    /// The token under the cursor, copied.
    fn peek(&self) -> (r: Token)
        requires
            self.inv(),
        ensures
            r@ == self.toks()[self.cur()],
    {
        self.tokens[self.current].dup()
    }

    /// The token before the cursor, copied.
    fn previous(&self) -> (r: Token)
        requires
            self.inv(),
            self.cur() >= 1,
        ensures
            r@ == self.toks()[self.cur() - 1],
    {
        self.tokens[self.current - 1].dup()
    }

    /// A reference to the token under the cursor.
    fn current_tok(&self) -> (r: &Token)
        requires
            self.inv(),
        ensures
            r@ == self.toks()[self.cur()],
    {
        &self.tokens[self.current]
    }

    /// Whether the token under the cursor has the given type; false at the
    /// end of input.
    fn check(&self, ttype: TokenType) -> (r: bool)
        requires
            self.inv(),
        ensures
            r == (self.toks()[self.cur()].ttype == ttype && self.toks()[self.cur()].ttype
                != TokenType::EOF),
    {
        if self.is_at_end() {
            false
        } else {
            self.tokens[self.current].ttype == ttype
        }
    }

    /// Moves past the token under the cursor, unless at the end of input,
    /// and returns the token moved past.
    fn advance(&mut self) -> (r: Token)
        requires
            old(self).inv(),
            old(self).cur() > 0 || old(self).toks()[old(self).cur()].ttype != TokenType::EOF,
        ensures
            final(self).inv(),
            final(self).toks() == old(self).toks(),
            old(self).toks()[old(self).cur()].ttype != TokenType::EOF ==> final(self).cur() == old(
                self,
            ).cur() + 1 && r@ == old(self).toks()[old(self).cur()],
            old(self).toks()[old(self).cur()].ttype == TokenType::EOF ==> final(self).cur() == old(
                self,
            ).cur() && r@ == old(self).toks()[old(self).cur() - 1],
    {
        let n = self.tokens.len();
        if !self.is_at_end() {
            proof {
                assert(self.cur() < n - 1);
            }
            self.current += 1;
        }
        self.previous()
    }

    /// Whether the token under the cursor has one of the given types; if so,
    /// moves past it.
    #[verifier::loop_isolation(false)]
    pub fn is_match(&mut self, types: &[TokenType]) -> (r: bool)
        requires
            old(self).inv(),
        ensures
            final(self).inv(),
            final(self).toks() == old(self).toks(),
            r == (old(self).toks()[old(self).cur()].ttype != TokenType::EOF && types@.contains(
                old(self).toks()[old(self).cur()].ttype,
            )),
            r ==> final(self).cur() == old(self).cur() + 1,
            !r ==> final(self).cur() == old(self).cur(),
    {
        let mut k: usize = 0;
        while k < types.len()
            invariant
                0 <= k <= types@.len(),
                self.inv(),
                self == old(self),
                forall|j: int|
                    0 <= j < k ==> (self.toks()[self.cur()].ttype != types@[j]
                        || self.toks()[self.cur()].ttype == TokenType::EOF),
            decreases types@.len() - k,
        {
            if self.check(types[k]) {
                let _ = self.advance();
                return true;
            }
            k += 1;
        }
        false
    }

    /// Moves past the token under the cursor when it has the expected type;
    /// otherwise reports an expected-token error naming `message`, at the
    /// actual token's position, without moving.
    fn consume(&mut self, ttype: TokenType, message: char) -> (r: Result<Token, SyntaxError>)
        requires
            old(self).inv(),
        ensures
            final(self).inv(),
            final(self).toks() == old(self).toks(),
            (old(self).toks()[old(self).cur()].ttype == ttype && ttype != TokenType::EOF) ==> (
            r matches Ok(t) && t@ == old(self).toks()[old(self).cur()] && final(self).cur() == old(
                self,
            ).cur() + 1),
            !(old(self).toks()[old(self).cur()].ttype == ttype && ttype != TokenType::EOF) ==> (
            r matches Err(e) && e@ == expected_token_error(
                old(self).toks()[old(self).cur()],
                message,
            ) && final(self).cur() == old(self).cur()),
    {
        if self.check(ttype) {
            Ok(self.advance())
        } else {
            let p = self.peek();
            let mut buf: Vec<char> = Vec::new();
            buf.push(message);
            let expected = chars_to_string(&buf);
            proof {
                assert(expected@ =~= seq![message]);
            }
            Err(
                SyntaxError::new(
                    p.line,
                    p.position,
                    SyntaxErrorTypes::ExpectedToken(expected, p.lexeme),
                ),
            )
        }
    }

    /// primary := TRUE | FALSE | NIL | NUMBER | STRING | IDENTIFIER
    ///          | "(" expression ")".
    fn primary(&mut self) -> (r: Result<Expr, SyntaxError>)
        requires
            old(self).inv(),
        ensures
            final(self).inv(),
            final(self).toks() == old(self).toks(),
            old(self).cur() <= final(self).cur(),
            r is Ok ==> old(self).cur() < final(self).cur(),
            r matches Ok(e) ==> expr_wf(e@),
            expr_parse_matches(
                r,
                spec_primary(old(self).toks(), old(self).cur()),
                final(self).cur(),
            ),
        decreases old(self).toks().len() - old(self).cur(), 0int,
    {
        if self.check(TokenType::TRUE) {
            let _ = self.advance();
            return Ok(Expr::Literal(LiteralExpr { value: Some(Object::Bool(true)) }));
        }
        if self.check(TokenType::FALSE) {
            let _ = self.advance();
            return Ok(Expr::Literal(LiteralExpr { value: Some(Object::Bool(false)) }));
        }
        if self.check(TokenType::NIL) {
            let _ = self.advance();
            return Ok(Expr::Literal(LiteralExpr { value: Some(Object::Nil) }));
        }
        if self.check(TokenType::NUMBER) || self.check(TokenType::STRING) {
            let t = self.advance();
            return Ok(Expr::Literal(LiteralExpr { value: Some(t.literal) }));
        }
        if self.check(TokenType::IDENTIFIER) {
            let t = self.advance();
            return Ok(Expr::Variable(VariableExpr { name: t }));
        }
        if self.check(TokenType::LEFTPAREN) {
            let _ = self.advance();
            let inner = match self.expression() {
                Ok(e) => e,
                Err(err) => {
                    return Err(err);
                },
            };
            return match self.consume(TokenType::RIGHTPAREN, ')') {
                Ok(_) => Ok(Expr::Grouping(GroupingExpr { expression: Box::new(inner) })),
                Err(err) => Err(err),
            };
        }
        let t = self.current_tok();
        Err(SyntaxError::new(t.line, t.position, SyntaxErrorTypes::UnexpectedToken(t.as_string())))
    }

    /// unary := ("!" | "-") unary | primary.
    fn unary(&mut self) -> (r: Result<Expr, SyntaxError>)
        requires
            old(self).inv(),
        ensures
            final(self).inv(),
            final(self).toks() == old(self).toks(),
            old(self).cur() <= final(self).cur(),
            r is Ok ==> old(self).cur() < final(self).cur(),
            r matches Ok(e) ==> expr_wf(e@),
            expr_parse_matches(r, spec_unary(old(self).toks(), old(self).cur()), final(self).cur()),
        decreases old(self).toks().len() - old(self).cur(), 1int,
    {
        if self.check(TokenType::BANG) || self.check(TokenType::MINUS) {
            let operator = self.advance();
            match self.unary() {
                Ok(right) => Ok(Expr::Unary(UnaryExpr { operator, right: Box::new(right) })),
                Err(err) => Err(err),
            }
        } else {
            self.primary()
        }
    }

    /// factor := unary (("/" | "*") unary)*, folded left.
    #[verifier::loop_isolation(false)]
    fn factor(&mut self) -> (r: Result<Expr, SyntaxError>)
        requires
            old(self).inv(),
        ensures
            final(self).inv(),
            final(self).toks() == old(self).toks(),
            old(self).cur() <= final(self).cur(),
            r is Ok ==> old(self).cur() < final(self).cur(),
            r matches Ok(e) ==> expr_wf(e@),
            expr_parse_matches(
                r,
                spec_factor(old(self).toks(), old(self).cur()),
                final(self).cur(),
            ),
        decreases old(self).toks().len() - old(self).cur(), 3int,
    {
        let ghost toks = old(self).toks();
        let ghost i0 = old(self).cur();
        let mut expr = match self.unary() {
            Ok(e) => e,
            Err(err) => {
                return Err(err);
            },
        };
        loop
            invariant
                self.inv(),
                self.toks() == toks,
                i0 < self.cur(),
                expr_wf(expr@),
                spec_factor(toks, i0) == spec_factor_rest(toks, expr@, self.cur()),
            decreases toks.len() - self.cur(),
        {
            if self.check(TokenType::SLASH) || self.check(TokenType::STAR) {
                let operator = self.advance();
                let right = match self.unary() {
                    Ok(e) => e,
                    Err(err) => {
                        return Err(err);
                    },
                };
                expr = Expr::Binary(
                    BinaryExpr { left: Box::new(expr), operator, right: Box::new(right) },
                );
            } else {
                return Ok(expr);
            }
        }
    }

    /// term := factor (("-" | "+") factor)*, folded left.
    #[verifier::loop_isolation(false)]
    fn term(&mut self) -> (r: Result<Expr, SyntaxError>)
        requires
            old(self).inv(),
        ensures
            final(self).inv(),
            final(self).toks() == old(self).toks(),
            old(self).cur() <= final(self).cur(),
            r is Ok ==> old(self).cur() < final(self).cur(),
            r matches Ok(e) ==> expr_wf(e@),
            expr_parse_matches(r, spec_term(old(self).toks(), old(self).cur()), final(self).cur()),
        decreases old(self).toks().len() - old(self).cur(), 5int,
    {
        let ghost toks = old(self).toks();
        let ghost i0 = old(self).cur();
        let mut expr = match self.factor() {
            Ok(e) => e,
            Err(err) => {
                return Err(err);
            },
        };
        loop
            invariant
                self.inv(),
                self.toks() == toks,
                i0 < self.cur(),
                expr_wf(expr@),
                spec_term(toks, i0) == spec_term_rest(toks, expr@, self.cur()),
            decreases toks.len() - self.cur(),
        {
            if self.check(TokenType::MINUS) || self.check(TokenType::PLUS) {
                let operator = self.advance();
                let right = match self.factor() {
                    Ok(e) => e,
                    Err(err) => {
                        return Err(err);
                    },
                };
                expr = Expr::Binary(
                    BinaryExpr { left: Box::new(expr), operator, right: Box::new(right) },
                );
            } else {
                return Ok(expr);
            }
        }
    }

    /// comparison := term ((">" | ">=" | "<" | "<=") term)*, folded left.
    #[verifier::loop_isolation(false)]
    fn comparison(&mut self) -> (r: Result<Expr, SyntaxError>)
        requires
            old(self).inv(),
        ensures
            final(self).inv(),
            final(self).toks() == old(self).toks(),
            old(self).cur() <= final(self).cur(),
            r is Ok ==> old(self).cur() < final(self).cur(),
            r matches Ok(e) ==> expr_wf(e@),
            expr_parse_matches(
                r,
                spec_comparison(old(self).toks(), old(self).cur()),
                final(self).cur(),
            ),
        decreases old(self).toks().len() - old(self).cur(), 7int,
    {
        let ghost toks = old(self).toks();
        let ghost i0 = old(self).cur();
        let mut expr = match self.term() {
            Ok(e) => e,
            Err(err) => {
                return Err(err);
            },
        };
        loop
            invariant
                self.inv(),
                self.toks() == toks,
                i0 < self.cur(),
                expr_wf(expr@),
                spec_comparison(toks, i0) == spec_comparison_rest(toks, expr@, self.cur()),
            decreases toks.len() - self.cur(),
        {
            if self.check(TokenType::GREATEREQUAL) || self.check(TokenType::GREATER) || self.check(
                TokenType::LESSEQUAL,
            ) || self.check(TokenType::LESS) {
                let operator = self.advance();
                let right = match self.term() {
                    Ok(e) => e,
                    Err(err) => {
                        return Err(err);
                    },
                };
                expr = Expr::Binary(
                    BinaryExpr { left: Box::new(expr), operator, right: Box::new(right) },
                );
            } else {
                return Ok(expr);
            }
        }
    }

    /// equality := comparison (("!=" | "==") comparison)*, folded left.
    #[verifier::loop_isolation(false)]
    fn equality(&mut self) -> (r: Result<Expr, SyntaxError>)
        requires
            old(self).inv(),
        ensures
            final(self).inv(),
            final(self).toks() == old(self).toks(),
            old(self).cur() <= final(self).cur(),
            r is Ok ==> old(self).cur() < final(self).cur(),
            r matches Ok(e) ==> expr_wf(e@),
            expr_parse_matches(
                r,
                spec_equality(old(self).toks(), old(self).cur()),
                final(self).cur(),
            ),
        decreases old(self).toks().len() - old(self).cur(), 9int,
    {
        let ghost toks = old(self).toks();
        let ghost i0 = old(self).cur();
        let mut expr = match self.comparison() {
            Ok(e) => e,
            Err(err) => {
                return Err(err);
            },
        };
        loop
            invariant
                self.inv(),
                self.toks() == toks,
                i0 < self.cur(),
                expr_wf(expr@),
                spec_equality(toks, i0) == spec_equality_rest(toks, expr@, self.cur()),
            decreases toks.len() - self.cur(),
        {
            if self.check(TokenType::BANGEQUAL) || self.check(TokenType::EQUALEQUAL) {
                let operator = self.advance();
                let right = match self.comparison() {
                    Ok(e) => e,
                    Err(err) => {
                        return Err(err);
                    },
                };
                expr = Expr::Binary(
                    BinaryExpr { left: Box::new(expr), operator, right: Box::new(right) },
                );
            } else {
                return Ok(expr);
            }
        }
    }

    /// expression := equality.
    pub fn expression(&mut self) -> (r: Result<Expr, SyntaxError>)
        requires
            old(self).inv(),
        ensures
            final(self).inv(),
            final(self).toks() == old(self).toks(),
            old(self).cur() <= final(self).cur(),
            r is Ok ==> old(self).cur() < final(self).cur(),
            r matches Ok(e) ==> expr_wf(e@),
            expr_parse_matches(
                r,
                spec_expression(old(self).toks(), old(self).cur()),
                final(self).cur(),
            ),
        decreases old(self).toks().len() - old(self).cur(), 10int,
    {
        self.equality()
    }

    /// printStmt := expression ";" (after the PRINT keyword).
    fn print_statement(&mut self) -> (r: Result<Stmt, SyntaxError>)
        requires
            old(self).inv(),
        ensures
            final(self).inv(),
            final(self).toks() == old(self).toks(),
            old(self).cur() <= final(self).cur(),
            r is Ok ==> old(self).cur() < final(self).cur(),
            r matches Ok(s) ==> stmt_wf(s@),
            stmt_parse_matches(
                r,
                spec_print_statement(old(self).toks(), old(self).cur()),
                final(self).cur(),
            ),
        decreases old(self).toks().len() - old(self).cur(), 11int,
    {
        let value = match self.expression() {
            Ok(e) => e,
            Err(err) => {
                return Err(err);
            },
        };
        match self.consume(TokenType::SEMICOLON, ';') {
            Ok(_) => Ok(Stmt::Print(PrintStmt { expression: value })),
            Err(err) => Err(err),
        }
    }

    /// exprStmt := expression ";".
    fn expression_statement(&mut self) -> (r: Result<Stmt, SyntaxError>)
        requires
            old(self).inv(),
        ensures
            final(self).inv(),
            final(self).toks() == old(self).toks(),
            old(self).cur() <= final(self).cur(),
            r is Ok ==> old(self).cur() < final(self).cur(),
            r matches Ok(s) ==> stmt_wf(s@),
            stmt_parse_matches(
                r,
                spec_expression_statement(old(self).toks(), old(self).cur()),
                final(self).cur(),
            ),
        decreases old(self).toks().len() - old(self).cur(), 11int,
    {
        let expr = match self.expression() {
            Ok(e) => e,
            Err(err) => {
                return Err(err);
            },
        };
        match self.consume(TokenType::SEMICOLON, ';') {
            Ok(_) => Ok(Stmt::Expression(ExpressionStmt { expression: expr })),
            Err(err) => Err(err),
        }
    }

    /// statement := printStmt | exprStmt.
    fn statement(&mut self) -> (r: Result<Stmt, SyntaxError>)
        requires
            old(self).inv(),
        ensures
            final(self).inv(),
            final(self).toks() == old(self).toks(),
            old(self).cur() <= final(self).cur(),
            r is Ok ==> old(self).cur() < final(self).cur(),
            r matches Ok(s) ==> stmt_wf(s@),
            stmt_parse_matches(
                r,
                spec_statement(old(self).toks(), old(self).cur()),
                final(self).cur(),
            ),
        decreases old(self).toks().len() - old(self).cur(), 12int,
    {
        if self.check(TokenType::PRINT) {
            let _ = self.advance();
            self.print_statement()
        } else {
            self.expression_statement()
        }
    }

    /// varDecl := IDENTIFIER ("=" expression)? ";" (after the VAR keyword).
    fn var_declaration(&mut self) -> (r: Result<Stmt, SyntaxError>)
        requires
            old(self).inv(),
        ensures
            final(self).inv(),
            final(self).toks() == old(self).toks(),
            old(self).cur() <= final(self).cur(),
            r is Ok ==> old(self).cur() < final(self).cur(),
            r matches Ok(s) ==> stmt_wf(s@),
            stmt_parse_matches(
                r,
                spec_var_declaration(old(self).toks(), old(self).cur()),
                final(self).cur(),
            ),
        decreases old(self).toks().len() - old(self).cur(), 12int,
    {
        let name = match self.consume(TokenType::IDENTIFIER, 'i') {
            Ok(t) => t,
            Err(err) => {
                return Err(err);
            },
        };
        let initializer = if self.check(TokenType::EQUAL) {
            let _ = self.advance();
            match self.expression() {
                Ok(e) => Some(e),
                Err(err) => {
                    return Err(err);
                },
            }
        } else {
            None
        };
        match self.consume(TokenType::SEMICOLON, ';') {
            Ok(_) => Ok(Stmt::Var(VarStmt { name, initializer })),
            Err(err) => Err(err),
        }
    }

    /// declaration := varDecl | statement.
    fn declaration(&mut self) -> (r: Result<Stmt, SyntaxError>)
        requires
            old(self).inv(),
        ensures
            final(self).inv(),
            final(self).toks() == old(self).toks(),
            old(self).cur() <= final(self).cur(),
            r is Ok ==> old(self).cur() < final(self).cur(),
            r matches Ok(s) ==> stmt_wf(s@),
            stmt_parse_matches(
                r,
                spec_declaration(old(self).toks(), old(self).cur()),
                final(self).cur(),
            ),
        decreases old(self).toks().len() - old(self).cur(), 13int,
    {
        if self.check(TokenType::VAR) {
            let _ = self.advance();
            self.var_declaration()
        } else {
            self.statement()
        }
    }

    /// Parses the whole program: the statement sequence, or the first syntax
    /// error met. The same token sequence always yields the same result.
    #[verifier::loop_isolation(false)]
    pub fn parse(&mut self) -> (r: Result<Vec<Stmt>, SyntaxError>)
        requires
            old(self).inv(),
        ensures
            final(self).inv(),
            final(self).toks() == old(self).toks(),
            match (r, spec_program(old(self).toks(), old(self).cur())) {
                (Ok(v), Ok(ss)) => v@.map_values(|s: Stmt| s@) == ss,
                (Err(e), Err(f)) => e@ == f,
                _ => false,
            },
            r matches Ok(v) ==> forall|k: int| 0 <= k < v@.len() ==> stmt_wf(#[trigger] v@[k]@),
    {
        let ghost toks = old(self).toks();
        let ghost i0 = old(self).cur();
        let mut statements: Vec<Stmt> = Vec::new();
        proof {
            assert(statements@.map_values(|s: Stmt| s@) =~= Seq::<StmtV>::empty());
            match spec_program(toks, i0) {
                Ok(rest) => {
                    assert(statements@.map_values(|s: Stmt| s@) + rest =~= rest);
                },
                Err(_) => {},
            }
        }
        while !self.is_at_end()
            invariant
                self.inv(),
                self.toks() == toks,
                forall|k: int| 0 <= k < statements@.len() ==> stmt_wf(#[trigger] statements@[k]@),
                spec_program(toks, i0) == (match spec_program(toks, self.cur()) {
                    Ok(rest) => Ok::<Seq<StmtV>, SyntaxErrorV>(
                        statements@.map_values(|s: Stmt| s@) + rest,
                    ),
                    Err(err) => Err::<Seq<StmtV>, SyntaxErrorV>(err),
                }),
            decreases toks.len() - self.cur(),
        {
            let ghost pre = statements@.map_values(|s: Stmt| s@);
            match self.declaration() {
                Ok(s) => {
                    let ghost sv = s@;
                    statements.push(s);
                    proof {
                        assert(statements@.map_values(|st: Stmt| st@) =~= pre.push(sv));
                        match spec_program(toks, self.cur()) {
                            Ok(rest) => {
                                assert(pre + (seq![sv] + rest) =~= statements@.map_values(
                                    |st: Stmt| st@,
                                ) + rest);
                            },
                            Err(_) => {},
                        }
                    }
                },
                Err(err) => {
                    return Err(err);
                },
            }
        }
        proof {
            match spec_program(toks, self.cur()) {
                Ok(rest) => {
                    assert(statements@.map_values(|s: Stmt| s@) + rest =~= statements@.map_values(
                        |s: Stmt| s@,
                    ));
                },
                Err(_) => {},
            }
        }
        Ok(statements)
    }

    /// After a syntax error: skips tokens until just past a statement
    /// boundary (a semicolon) or to the end of input, so parsing can resume
    /// at the next declaration.
    #[verifier::loop_isolation(false)]
    pub fn synchronize(&mut self)
        requires
            old(self).inv(),
            old(self).cur() > 0 || old(self).toks()[old(self).cur()].ttype != TokenType::EOF,
        ensures
            final(self).inv(),
            final(self).toks() == old(self).toks(),
            final(self).cur() == spec_sync_from(
                old(self).toks(),
                if old(self).toks()[old(self).cur()].ttype == TokenType::EOF {
                    old(self).cur()
                } else {
                    old(self).cur() + 1
                },
            ),
    {
        let ghost toks = old(self).toks();
        let _ = self.advance();
        let ghost k0 = self.cur();
        loop
            invariant
                self.inv(),
                self.toks() == toks,
                self.cur() >= 1,
                spec_sync_from(toks, k0) == spec_sync_from(toks, self.cur()),
            decreases toks.len() - self.cur(),
        {
            if self.is_at_end() {
                return ;
            }
            let prev = self.previous();
            if prev.ttype == TokenType::SEMICOLON {
                return ;
            }
            let _ = self.advance();
        }
    }
}


/// Parsing is deterministic: the same token sequence always yields a
/// structurally identical result, statement for statement and error for
/// error.
pub proof fn lemma_parse_deterministic(toks1: Seq<TokenV>, toks2: Seq<TokenV>)
    requires
        toks1 == toks2,
    ensures
        spec_program(toks1, 0) == spec_program(toks2, 0),
{
}

} // verus!
