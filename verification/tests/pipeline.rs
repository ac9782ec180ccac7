use cedar::Cedar;
use cedar::RunError;
use cedar::interpreter::Interpreter;
use cedar::object::Object;
use cedar::parser::Parser;
use cedar::scanner::Scanner;
use cedar::stmt::Stmt;

fn run(source: &str) -> Result<Vec<String>, RunError> {
    let mut cedar = Cedar::new();
    cedar.run(source.to_string(), "test.ql".to_string())
}

fn eval_first(source: &str) -> Result<Object, cedar::errors::syntax_error::SyntaxError> {
    let scanner = Scanner::new(source.chars().collect(), "test.ql".to_string());
    let tokens = scanner.scan_tokens().expect("scan failed");
    let mut parser = Parser::new(tokens);
    let statements = parser.parse().expect("parse failed");
    let interpreter = Interpreter {};
    match &statements[0] {
        Stmt::Expression(s) => interpreter.evaluate(&s.expression),
        Stmt::Print(s) => interpreter.evaluate(&s.expression),
        Stmt::Var(_) => panic!("expected an expression statement"),
    }
}

#[test]
fn precedence_factor_over_term() {
    assert_eq!(eval_first("1 + 2 * 3;").unwrap(), Object::Num(7.0f64.to_bits()));
    assert_ne!(eval_first("1 + 2 * 3;").unwrap(), Object::Num(9.0f64.to_bits()));
}

#[test]
fn left_associativity_of_minus() {
    assert_eq!(eval_first("8 - 3 - 2;").unwrap(), Object::Num(3.0f64.to_bits()));
    assert_ne!(eval_first("8 - 3 - 2;").unwrap(), Object::Num(7.0f64.to_bits()));
}

#[test]
fn string_concatenation() {
    assert_eq!(eval_first("\"ab\" + \"cd\";").unwrap(), Object::Str("abcd".to_string()));
}

#[test]
fn mixed_string_number_addition_is_an_error() {
    let err = eval_first("\"x\" + 1;").unwrap_err();
    assert_eq!(err.main_message(), "Invalid unary expression.");
}

#[test]
fn truthiness_of_null_and_zero() {
    assert_eq!(eval_first("!null;").unwrap(), Object::Bool(true));
    assert_eq!(eval_first("!0;").unwrap(), Object::Bool(false));
    assert_eq!(eval_first("!\"\";").unwrap(), Object::Bool(false));
    assert_eq!(eval_first("!false;").unwrap(), Object::Bool(true));
}

#[test]
fn unterminated_string_is_a_lexer_error() {
    let err = run("\"abc").unwrap_err();
    match err {
        RunError::Lex(e) => {
            assert_eq!(e.main_message(), "error[E2502] Unexpected end of string");
            assert_eq!(e.line(), 0);
            assert_eq!(e.column(), 0);
        }
        RunError::Syntax(_) => panic!("expected a lexer error"),
    }
}

#[test]
fn division_by_zero_is_a_runtime_error() {
    let err = eval_first("1/0;").unwrap_err();
    assert_eq!(err.main_message(), "Invalid unary expression.");
    assert!(eval_first("0/0;").is_err());
    assert!(eval_first("1/(0 - 0);").is_err());
    assert_eq!(eval_first("6/3;").unwrap(), Object::Num(2.0f64.to_bits()));
}

#[test]
fn two_malformed_statements_fail_deterministically() {
    let first = run("1 +; 2 +;");
    let second = run("1 +; 2 +;");
    let err = first.unwrap_err();
    match err {
        RunError::Syntax(e) => {
            // the first offending token is the `;` after `1 +`
            assert_eq!(e.main_message(), "Unexpected Token: Token \";\"");
            assert_eq!(e.line(), 0);
            assert_eq!(e.column(), 3);
        }
        RunError::Lex(_) => panic!("expected a syntax error"),
    }
    // the same input reports the same error
    let err2 = second.unwrap_err();
    match err2 {
        RunError::Syntax(e) => {
            assert_eq!(e.main_message(), "Unexpected Token: Token \";\"");
        }
        RunError::Lex(_) => panic!("expected a syntax error"),
    }
}

#[test]
fn synchronize_skips_to_the_next_statement() {
    let scanner = Scanner::new("+ + ; show 1;".chars().collect(), "test.ql".to_string());
    let tokens = scanner.scan_tokens().expect("scan failed");
    let mut parser = Parser::new(tokens);
    assert!(parser.parse().is_err());
    let scanner2 = Scanner::new("+ + ; show 1;".chars().collect(), "test.ql".to_string());
    let tokens2 = scanner2.scan_tokens().expect("scan failed");
    let mut parser2 = Parser::new(tokens2);
    parser2.synchronize();
    // after skipping past the semicolon the remaining statements parse
    let statements = parser2.parse().expect("recovery failed");
    assert_eq!(statements.len(), 1);
}

#[test]
fn parse_is_deterministic_on_the_same_tokens() {
    let render = |src: &str| -> String {
        let scanner = Scanner::new(src.chars().collect(), "test.ql".to_string());
        let tokens = scanner.scan_tokens().expect("scan failed");
        let mut parser = Parser::new(tokens);
        let statements = parser.parse().expect("parse failed");
        let printer = cedar::ast_printer::AstPrinter;
        match &statements[0] {
            Stmt::Expression(s) => printer.print(&s.expression).unwrap(),
            _ => panic!("expected an expression statement"),
        }
    };
    assert_eq!(render("1 + 2 * (3 - 4);"), render("1 + 2 * (3 - 4);"));
}

#[test]
fn print_statements_collect_output_lines() {
    let lines = run("show \"hi\"; show 1 + 2; 4 * 4; show null;").unwrap();
    assert_eq!(lines, vec!["hi".to_string(), "3".to_string(), "Nil".to_string()]);
}

#[test]
fn variable_declarations_run_without_storage() {
    assert_eq!(run("var x = 1;").unwrap(), Vec::<String>::new());
    assert_eq!(run("var x;").unwrap(), Vec::<String>::new());
    // a variable expression always evaluates to Nil in the current scope
    assert_eq!(run("show x;").unwrap(), vec!["Nil".to_string()]);
}

#[test]
fn var_requires_an_identifier() {
    let err = run("var 1;").unwrap_err();
    match err {
        RunError::Syntax(e) => {
            assert_eq!(e.main_message(), "Expected Token \"i\", got \"1\".");
        }
        RunError::Lex(_) => panic!("expected a syntax error"),
    }
}

#[test]
fn unclosed_grouping_names_the_expected_token() {
    let err = run("(1 + 2;").unwrap_err();
    match err {
        RunError::Syntax(e) => {
            assert_eq!(e.main_message(), "Expected Token \")\", got \";\".");
        }
        RunError::Lex(_) => panic!("expected a syntax error"),
    }
}

#[test]
fn missing_semicolon_is_reported() {
    let err = run("1 + 2").unwrap_err();
    match err {
        RunError::Syntax(e) => {
            assert_eq!(e.main_message(), "Expected Token \";\", got \"\".");
        }
        RunError::Lex(_) => panic!("expected a syntax error"),
    }
}

#[test]
fn unary_minus_requires_a_number() {
    let err = eval_first("-\"a\";").unwrap_err();
    assert_eq!(err.main_message(), "Operand must be a number.");
    assert_eq!(eval_first("-5;").unwrap(), Object::Num((-5.0f64).to_bits()));
    assert_eq!(eval_first("--5;").unwrap(), Object::Num(5.0f64.to_bits()));
}

#[test]
fn comparisons_are_defined_between_numbers_only() {
    assert_eq!(eval_first("1 < 2;").unwrap(), Object::Bool(true));
    assert_eq!(eval_first("2 <= 2;").unwrap(), Object::Bool(true));
    assert_eq!(eval_first("1 > 2;").unwrap(), Object::Bool(false));
    assert_eq!(eval_first("3 >= 4;").unwrap(), Object::Bool(false));
    assert_eq!(eval_first("\"a\" < \"b\";").unwrap(), Object::Bool(false));
    assert_eq!(eval_first("\"a\" >= \"b\";").unwrap(), Object::Bool(false));
}

#[test]
fn equality_is_structural() {
    assert_eq!(eval_first("1 == 1;").unwrap(), Object::Bool(true));
    assert_eq!(eval_first("1 == \"1\";").unwrap(), Object::Bool(false));
    assert_eq!(eval_first("null == null;").unwrap(), Object::Bool(true));
    assert_eq!(eval_first("\"ab\" == \"ab\";").unwrap(), Object::Bool(true));
    assert_eq!(eval_first("\"ab\" != \"cd\";").unwrap(), Object::Bool(true));
    assert_eq!(eval_first("true == true;").unwrap(), Object::Bool(true));
}

#[test]
fn comments_are_skipped() {
    let lines = run("show 1; // a comment\nshow 2;").unwrap();
    assert_eq!(lines, vec!["1".to_string(), "2".to_string()]);
}

#[test]
fn grouping_overrides_precedence() {
    assert_eq!(eval_first("(1 + 2) * 3;").unwrap(), Object::Num(9.0f64.to_bits()));
}

#[test]
fn numbers_render_in_decimal() {
    assert_eq!(run("show 1.5;").unwrap(), vec!["1.5".to_string()]);
    assert_eq!(run("show 2 / 4;").unwrap(), vec!["0.5".to_string()]);
    assert_eq!(run("show 10 * 10;").unwrap(), vec!["100".to_string()]);
}
