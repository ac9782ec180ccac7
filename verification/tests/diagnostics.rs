use cedar::ast_printer::AstPrinter;
use cedar::error::CDLexerError;
use cedar::error::CDSyntaxError;
use cedar::error::CDSyntaxErrorTypes;
use cedar::error::create_string_with_spaces;
use cedar::error::find_nth_index;
use cedar::error::get_line;
use cedar::errors::lexer_error::LexerError;
use cedar::errors::lexer_error::LexerErrorTypes;
use cedar::errors::lexer_error::flash_error_location;
use cedar::errors::lexer_error::get_error_line;
use cedar::errors::syntax_error::SyntaxError;
use cedar::errors::syntax_error::SyntaxErrorTypes;
use cedar::interpreter::Interpreter;
use cedar::object::Object;
use cedar::parser::Parser;
use cedar::scanner::Scanner;
use cedar::stmt::Stmt;
use cedar::token::Token;
use cedar::token::TokenType;
use cedar::token::keyword_type;

#[test]
fn syntax_error_messages_follow_their_templates() {
    let e = SyntaxError::new(2, 7, SyntaxErrorTypes::UnexpectedToken(";".to_string()));
    assert_eq!(e.main_message(), "Unexpected Token: Token \";\"");
    assert_eq!((e.line(), e.column()), (2, 7));
    let e = SyntaxError::new(0, 0, SyntaxErrorTypes::ExpectedToken(")".to_string(), ";".to_string()));
    assert_eq!(e.main_message(), "Expected Token \")\", got \";\".");
    let e = SyntaxError::new(0, 0, SyntaxErrorTypes::OperandNaN());
    assert_eq!(e.main_message(), "Operand must be a number.");
    let e = SyntaxError::new(0, 0, SyntaxErrorTypes::InvalidUnary());
    assert_eq!(e.main_message(), "Invalid unary expression.");
}

#[test]
fn lexer_error_messages_follow_their_templates() {
    let source: Vec<char> = "1x".chars().collect();
    let e = LexerError::new(
        0,
        1,
        LexerErrorTypes::InvalidNumber("1x".to_string()),
        "f.ql".to_string(),
        source,
    );
    assert_eq!(e.main_message(), "Invalid number '1x'");
    assert_eq!(e.message(), "Invalid number '1x'");
    assert_eq!(e.file_name(), "f.ql");
}

#[test]
fn runtime_error_is_the_fixed_operand_diagnostic() {
    let e = CDSyntaxError::runtime_error();
    assert_eq!(e.main_message(), "Syntax Error");
    assert_eq!(e.message(), "Operand must be a number.");
    assert_eq!((e.line(), e.column()), (0, 0));
}

#[test]
fn cd_lexer_error_keeps_its_parts() {
    let source: Vec<char> = "show 1;".chars().collect();
    let e = CDLexerError::error(
        1,
        2,
        "main".to_string(),
        "detail".to_string(),
        "f.ql".to_string(),
        source,
    );
    assert_eq!((e.line(), e.column()), (1, 2));
    assert_eq!(e.main_message(), "main");
    assert_eq!(e.message(), "detail");
    assert_eq!(e.file_name(), "f.ql");
    let buffer: String = e.source_chars().iter().collect();
    assert_eq!(buffer, "show 1;");
}

#[test]
fn cd_syntax_error_keeps_its_parts() {
    let e = CDSyntaxError::error(
        CDSyntaxErrorTypes::UNEXPECTED_EOF,
        3,
        4,
        "main".to_string(),
        "detail".to_string(),
    );
    assert_eq!((e.line(), e.column()), (3, 4));
    assert_eq!(e.main_message(), "main");
    assert_eq!(e.message(), "detail");
}

#[test]
fn get_error_line_renders_the_numbered_line() {
    let source: Vec<char> = "ab\ncd\nef".chars().collect();
    assert_eq!(get_error_line(&source, 0), "01 | ab");
    assert_eq!(get_error_line(&source, 1), "02 | cd");
    assert_eq!(get_error_line(&source, 2), "03 | ef");
    assert_eq!(get_error_line(&source, 9), "010 | ");
}

#[test]
fn flash_error_location_places_the_caret() {
    assert_eq!(flash_error_location(1), "^");
    assert_eq!(flash_error_location(4), "   ^");
}

#[test]
fn create_string_with_spaces_pads_three_extra() {
    assert_eq!(create_string_with_spaces(1, '^'), "    ^");
    assert_eq!(create_string_with_spaces(0, '*'), "   *");
}

#[test]
fn find_nth_index_counts_occurrences() {
    assert_eq!(find_nth_index("a\nb\nc", '\n', 1), Some(1));
    assert_eq!(find_nth_index("a\nb\nc", '\n', 2), Some(3));
    // when there are fewer occurrences, the text's length comes back
    assert_eq!(find_nth_index("a\nb\nc", '\n', 3), Some(5));
}

#[test]
fn get_line_renders_neighbour_lines() {
    let s = "l1\nl2\nl3\nl4\n".to_string();
    assert_eq!(get_line(3, &s, -1), "02 | l2\n");
    assert_eq!(get_line(3, &s, 0), "03 | l3");
    assert_eq!(get_line(3, &s, 1), "04 | l4\n");
    assert_eq!(get_line(4, &s, 1), "05 | \n");
    let no_next = "l1\nl2".to_string();
    assert_eq!(get_line(2, &no_next, 1), " ");
    assert_eq!(get_line(3, &s, 5), " ");
}

#[test]
fn the_tree_printer_parenthesizes_prefix_form() {
    let print_first = |src: &str| -> String {
        let scanner = Scanner::new(src.chars().collect(), "test.ql".to_string());
        let tokens = scanner.scan_tokens().unwrap();
        let mut parser = Parser::new(tokens);
        let statements = parser.parse().unwrap();
        match &statements[0] {
            Stmt::Expression(s) => AstPrinter.print(&s.expression).unwrap(),
            _ => panic!("expected an expression statement"),
        }
    };
    assert_eq!(print_first("\"a\" + \"b\";"), "(+ a b)");
    assert_eq!(print_first("!(x == y);"), "(! (group (== x y)))");
    assert_eq!(print_first("1 + 2;"), "(+ 1 2)");
}

#[test]
fn object_equality_follows_number_semantics() {
    // the two zeroes are equal though their bit patterns differ
    let pos = Object::Num(0.0f64.to_bits());
    let neg = Object::Num((-0.0f64).to_bits());
    assert!(pos.equals(&neg));
    // a NaN is unequal even to itself
    let nan = Object::Num(f64::NAN.to_bits());
    assert!(!nan.equals(&nan));
    assert!(!nan.lt(&nan));
    assert!(!nan.le(&nan));
    // ordinary order
    let one = Object::Num(1.0f64.to_bits());
    let two = Object::Num(2.0f64.to_bits());
    assert!(one.lt(&two));
    assert!(!two.lt(&one));
    assert!(two.gt(&one));
    assert!(one.le(&one));
    assert!(one.ge(&one));
    let m1 = Object::Num((-1.0f64).to_bits());
    let m2 = Object::Num((-2.0f64).to_bits());
    assert!(m2.lt(&m1));
    assert!(neg.lt(&one));
    // order is defined between numbers only
    assert!(!Object::Str("a".to_string()).lt(&Object::Str("b".to_string())));
}

#[test]
fn object_display_forms() {
    assert_eq!(Object::Bool(true).as_string(), "true");
    assert_eq!(Object::Bool(false).as_string(), "false");
    assert_eq!(Object::Nil.as_string(), "Nil");
    assert_eq!(Object::Str("txt".to_string()).as_string(), "txt");
}

#[test]
fn tokens_keep_their_parts() {
    let t = Token::new(TokenType::NUMBER, "1.5".to_string(), Object::Num(1.5f64.to_bits()), 3, 9);
    assert_eq!(t.as_string(), "1.5");
    let d = t.dup();
    assert_eq!(d.ttype, TokenType::NUMBER);
    assert_eq!(d.lexeme, "1.5");
    assert_eq!(d.literal, Object::Num(1.5f64.to_bits()));
    assert_eq!((d.line, d.position), (3, 9));
}

#[test]
fn keyword_lookup_matches_the_fixed_table() {
    let word = |s: &str| -> TokenType { keyword_type(&s.chars().collect()) };
    assert_eq!(word("var"), TokenType::VAR);
    assert_eq!(word("show"), TokenType::PRINT);
    assert_eq!(word("ret"), TokenType::RETURN);
    assert_eq!(word("null"), TokenType::NIL);
    assert_eq!(word("&&"), TokenType::AND);
    assert_eq!(word("||"), TokenType::OR);
    assert_eq!(word("varx"), TokenType::IDENTIFIER);
    assert_eq!(word(""), TokenType::IDENTIFIER);
}

#[test]
fn truthiness_and_number_checks() {
    let interpreter = Interpreter {};
    assert!(!interpreter.is_truthy(&Object::Nil));
    assert!(!interpreter.is_truthy(&Object::Bool(false)));
    assert!(interpreter.is_truthy(&Object::Bool(true)));
    assert!(interpreter.is_truthy(&Object::Num(0.0f64.to_bits())));
    assert!(interpreter.is_truthy(&Object::Str(String::new())));
    let op = Token::new(TokenType::MINUS, "-".to_string(), Object::Nil, 1, 2);
    assert!(Interpreter::check_number_operand(op, &Object::Num(0)).is_ok());
    let op = Token::new(TokenType::MINUS, "-".to_string(), Object::Nil, 1, 2);
    let e = Interpreter::check_number_operand(op, &Object::Nil).unwrap_err();
    assert_eq!(e.main_message(), "Operand must be a number.");
    assert_eq!((e.line(), e.column()), (1, 2));
}
