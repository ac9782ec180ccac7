use cedar::object::Object;
use cedar::scanner::Scanner;
use cedar::token::Token;
use cedar::token::TokenType;
use cedar::errors::lexer_error::LexerErrorTypes;

fn scan(source: &str) -> Vec<Token> {
    let scanner = Scanner::new(source.chars().collect(), "test.ql".to_string());
    scanner.scan_tokens().expect("scan failed")
}

fn scan_err(source: &str) -> cedar::errors::lexer_error::LexerError {
    let scanner = Scanner::new(source.chars().collect(), "test.ql".to_string());
    scanner.scan_tokens().expect_err("scan unexpectedly succeeded")
}

fn kinds(tokens: &[Token]) -> Vec<TokenType> {
    tokens.iter().map(|t| t.ttype).collect()
}

#[test]
fn keywords_and_identifiers_classify() {
    let toks = scan("var for have func else class if while show ret null true false && || foo");
    let expected = vec![
        TokenType::VAR,
        TokenType::FOR,
        TokenType::HAVE,
        TokenType::FUNC,
        TokenType::ELSE,
        TokenType::CLASS,
        TokenType::IF,
        TokenType::WHILE,
        TokenType::PRINT,
        TokenType::RETURN,
        TokenType::NIL,
        TokenType::TRUE,
        TokenType::FALSE,
        TokenType::AND,
        TokenType::OR,
        TokenType::IDENTIFIER,
        TokenType::EOF,
    ];
    assert_eq!(kinds(&toks), expected);
}

#[test]
fn operators_and_punctuation_classify() {
    let toks = scan("( ) { } , . - + ; / * ! != = == > >= < <=");
    let expected = vec![
        TokenType::LEFTPAREN,
        TokenType::RIGHTPAREN,
        TokenType::LEFTBRACE,
        TokenType::RIGHTBRACE,
        TokenType::COMMA,
        TokenType::DOT,
        TokenType::MINUS,
        TokenType::PLUS,
        TokenType::SEMICOLON,
        TokenType::SLASH,
        TokenType::STAR,
        TokenType::BANG,
        TokenType::BANGEQUAL,
        TokenType::EQUAL,
        TokenType::EQUALEQUAL,
        TokenType::GREATER,
        TokenType::GREATEREQUAL,
        TokenType::LESS,
        TokenType::LESSEQUAL,
        TokenType::EOF,
    ];
    assert_eq!(kinds(&toks), expected);
}

#[test]
fn tokens_carry_line_and_column() {
    let toks = scan("show 1;\nvar x = 2;");
    // `show` at line 0 column 0, `1` at column 5, `;` at column 6
    assert_eq!((toks[0].line, toks[0].position), (0, 0));
    assert_eq!((toks[1].line, toks[1].position), (0, 5));
    assert_eq!((toks[2].line, toks[2].position), (0, 6));
    // `var` at line 1 column 0, `x` at column 4
    assert_eq!((toks[3].line, toks[3].position), (1, 0));
    assert_eq!((toks[4].line, toks[4].position), (1, 4));
}

#[test]
fn number_tokens_carry_parsed_values() {
    let toks = scan("1.5 42");
    assert_eq!(toks[0].literal, Object::Num(1.5f64.to_bits()));
    assert_eq!(toks[0].lexeme, "1.5");
    assert_eq!(toks[1].literal, Object::Num(42.0f64.to_bits()));
    assert_eq!(toks[1].lexeme, "42");
}

#[test]
fn string_tokens_exclude_their_quotes() {
    let toks = scan("\"hello there\"");
    assert_eq!(toks[0].ttype, TokenType::STRING);
    assert_eq!(toks[0].lexeme, "hello there");
    assert_eq!(toks[0].literal, Object::Str("hello there".to_string()));
}

#[test]
fn multi_line_strings_keep_their_text() {
    let toks = scan("\"a\nb\" 1");
    assert_eq!(toks[0].lexeme, "a\nb");
    // the token after the string is on line 1
    assert_eq!(toks[1].line, 1);
}

#[test]
fn a_point_without_digits_is_a_lexer_error() {
    let e = scan_err("1. ;");
    assert!(matches!(e.error_type(), LexerErrorTypes::InvalidFloatingPoint()));
    assert_eq!(e.main_message(), "error[E2504] Invalid floating point.");
    // the error points at the point, on line 0 column 1
    assert_eq!((e.line(), e.column()), (0, 1));
}

#[test]
fn an_unrecognized_character_is_a_lexer_error() {
    let e = scan_err("1 + @");
    assert!(matches!(e.error_type(), LexerErrorTypes::UnexpectedCharacter('@')));
    assert_eq!(e.main_message(), "error[E2503] Unexpected character '@'");
    assert_eq!(e.message(), "Tip: Try to remove or replace this character: @.");
    assert_eq!((e.line(), e.column()), (0, 4));
}

#[test]
fn the_unterminated_string_error_keeps_the_buffer() {
    let e = scan_err("ab\n\"cd");
    assert!(matches!(e.error_type(), LexerErrorTypes::UnexpectedEndOfString));
    assert_eq!(e.message(), "Unexpected end of string");
    assert_eq!((e.line(), e.column()), (1, 0));
    assert_eq!(e.file_name(), "test.ql");
    let buffer: String = e.source_chars().iter().collect();
    assert_eq!(buffer, "ab\n\"cd");
}

#[test]
fn comments_run_to_the_end_of_the_line() {
    let toks = scan("1 // 2 + 3 \"unterminated\n4");
    assert_eq!(toks[0].lexeme, "1");
    assert_eq!(toks[1].lexeme, "4");
    assert_eq!(toks[1].line, 1);
    assert_eq!(toks[2].ttype, TokenType::EOF);
}

#[test]
fn a_terminal_eof_token_is_always_appended() {
    let toks = scan("");
    assert_eq!(toks.len(), 1);
    assert_eq!(toks[0].ttype, TokenType::EOF);
    assert_eq!(toks[0].lexeme, "");
    assert_eq!(toks[0].literal, Object::Nil);
}

#[test]
fn rescanning_a_lexeme_reproduces_its_kind() {
    // the lexeme round trip: re-lexing an emitted lexeme gives one token of
    // the same kind, except for kinds whose lexeme is normalized (STRING
    // drops its quotes) and the empty end marker
    let toks = scan("var x = 1.5 + 2 * (7 - 3) / 4; show \"s\"; x != 1 == true <= false < null >= foo > bar ! - , . { }");
    for t in &toks {
        if t.ttype == TokenType::STRING || t.ttype == TokenType::EOF {
            continue;
        }
        let again = scan(&t.lexeme);
        assert_eq!(again.len(), 2, "lexeme {:?} should rescan to one token", t.lexeme);
        assert_eq!(again[0].ttype, t.ttype, "lexeme {:?} changed kind", t.lexeme);
        assert_eq!(again[0].lexeme, t.lexeme);
    }
}

#[test]
fn huge_literals_overflow_to_infinity_and_nan_stays_unequal() {
    let big = "9".repeat(400);
    let toks = scan(&big);
    match &toks[0].literal {
        Object::Num(bits) => assert!(f64::from_bits(*bits).is_infinite()),
        _ => panic!("expected a number"),
    }
    // inf - inf is NaN, and NaN compares unequal to itself
    let scanner = Scanner::new(
        format!("{} - {} == {} - {};", big, big, big, big).chars().collect(),
        "test.ql".to_string(),
    );
    let tokens = scanner.scan_tokens().unwrap();
    let mut parser = cedar::parser::Parser::new(tokens);
    let statements = parser.parse().unwrap();
    let interpreter = cedar::interpreter::Interpreter {};
    match &statements[0] {
        cedar::stmt::Stmt::Expression(s) => {
            assert_eq!(interpreter.evaluate(&s.expression).unwrap(), Object::Bool(false));
        }
        _ => panic!("expected an expression statement"),
    }
}
