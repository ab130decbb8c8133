use rust_lox_impl::error::error_reporter::ErrorReporter;
use rust_lox_impl::scanner::Scanner;
use rust_lox_impl::token::{Token, TokenKind, TokenType};

fn scan(source: &str) -> (Vec<Token>, ErrorReporter) {
    Scanner::new(source.to_string(), ErrorReporter::new()).scan_tokens()
}

fn kinds(tokens: &[Token]) -> Vec<TokenKind> {
    tokens.iter().map(|token| token.token_type.kind()).collect()
}

#[test]
fn empty_source_gives_only_eof() {
    let (tokens, reporter) = scan("");
    assert_eq!(tokens, vec![Token::new(TokenType::Eof, String::new(), 1)]);
    assert!(!reporter.had_error);
}

#[test]
fn punctuation_and_operators() {
    let (tokens, reporter) = scan("(){},.-+;/* ! != = == > >= < <=");
    assert!(!reporter.had_error);
    assert_eq!(
        kinds(&tokens),
        vec![
            TokenKind::LeftParen,
            TokenKind::RightParen,
            TokenKind::LeftBrace,
            TokenKind::RightBrace,
            TokenKind::Comma,
            TokenKind::Dot,
            TokenKind::Minus,
            TokenKind::Plus,
            TokenKind::SemiColon,
            TokenKind::Slash,
            TokenKind::Star,
            TokenKind::Bang,
            TokenKind::BangEqual,
            TokenKind::Equal,
            TokenKind::EqualEqual,
            TokenKind::Greater,
            TokenKind::GreaterEqual,
            TokenKind::Less,
            TokenKind::LessEqual,
            TokenKind::Eof,
        ]
    );
    assert_eq!(tokens[12].lexeme, "!=");
}

fn messages(reporter: &ErrorReporter) -> Vec<String> {
    reporter.diagnostics.iter().map(|diagnostic| diagnostic.to_string()).collect()
}

#[test]
fn keywords_and_identifiers() {
    let (tokens, _) = scan("and class else false for fun if nil or return super this true var while");
    assert_eq!(
        kinds(&tokens),
        vec![
            TokenKind::And,
            TokenKind::Class,
            TokenKind::Else,
            TokenKind::False,
            TokenKind::For,
            TokenKind::Fun,
            TokenKind::If,
            TokenKind::Nil,
            TokenKind::Or,
            TokenKind::Return,
            TokenKind::Super,
            TokenKind::This,
            TokenKind::True,
            TokenKind::Var,
            TokenKind::While,
            TokenKind::Eof,
        ]
    );
    let (tokens, _) = scan("andy _x x1 print For nil_ a_b9");
    assert_eq!(kinds(&tokens), vec![TokenKind::Identifier; 7].into_iter().chain([TokenKind::Eof]).collect::<Vec<_>>());
    assert_eq!(tokens[0].lexeme, "andy");
    assert_eq!(tokens[6].lexeme, "a_b9");
}

#[test]
fn numbers_carry_their_numeral() {
    let (tokens, reporter) = scan("12 3.25 7. .5 1.2.3");
    assert!(!reporter.had_error);
    assert_eq!(
        tokens,
        vec![
            Token::new(TokenType::Number("12".to_string()), "12".to_string(), 1),
            Token::new(TokenType::Number("3.25".to_string()), "3.25".to_string(), 1),
            Token::new(TokenType::Number("7".to_string()), "7".to_string(), 1),
            Token::new(TokenType::Dot, ".".to_string(), 1),
            Token::new(TokenType::Dot, ".".to_string(), 1),
            Token::new(TokenType::Number("5".to_string()), "5".to_string(), 1),
            Token::new(TokenType::Number("1.2".to_string()), "1.2".to_string(), 1),
            Token::new(TokenType::Dot, ".".to_string(), 1),
            Token::new(TokenType::Number("3".to_string()), "3".to_string(), 1),
            Token::new(TokenType::Eof, String::new(), 1),
        ]
    );
}

#[test]
fn strings_carry_their_text() {
    let (tokens, reporter) = scan("\"hi there\" \"\" \"two\nlines\" x");
    assert!(!reporter.had_error);
    assert_eq!(
        tokens,
        vec![
            Token::new(TokenType::String("hi there".to_string()), "\"hi there\"".to_string(), 1),
            Token::new(TokenType::String(String::new()), "\"\"".to_string(), 1),
            Token::new(TokenType::String("two\nlines".to_string()), "\"two\nlines\"".to_string(), 2),
            Token::new(TokenType::Identifier, "x".to_string(), 2),
            Token::new(TokenType::Eof, String::new(), 2),
        ]
    );
}

#[test]
fn strings_may_hold_any_character() {
    let (tokens, reporter) = scan("\"h\u{e9}llo \u{1f600}\"");
    assert!(!reporter.had_error);
    assert_eq!(tokens[0].token_type, TokenType::String("h\u{e9}llo \u{1f600}".to_string()));
    assert_eq!(tokens[0].lexeme, "\"h\u{e9}llo \u{1f600}\"");
}

#[test]
fn unterminated_string_is_reported_on_the_last_line() {
    let (tokens, reporter) = scan("a \"open\n\nstill open");
    assert!(reporter.had_error);
    assert_eq!(
        tokens,
        vec![
            Token::new(TokenType::Identifier, "a".to_string(), 1),
            Token::new(TokenType::Eof, String::new(), 3),
        ]
    );
    assert_eq!(messages(&reporter), vec!["[line 3] Error: Unterminated String"]);
}

#[test]
fn unexpected_characters_are_reported_and_skipped() {
    let (tokens, reporter) = scan("a @ b\n# \u{e9} c");
    assert!(reporter.had_error);
    assert_eq!(
        tokens,
        vec![
            Token::new(TokenType::Identifier, "a".to_string(), 1),
            Token::new(TokenType::Identifier, "b".to_string(), 1),
            Token::new(TokenType::Identifier, "c".to_string(), 2),
            Token::new(TokenType::Eof, String::new(), 2),
        ]
    );
    assert_eq!(
        messages(&reporter),
        vec![
            "[line 1] Error: Unexpected Character",
            "[line 2] Error: Unexpected Character",
            "[line 2] Error: Unexpected Character",
        ]
    );
}

#[test]
fn comments_run_to_the_end_of_the_line() {
    let (tokens, reporter) = scan("a // b \"c\n// only a comment\nd / e // the end");
    assert!(!reporter.had_error);
    assert_eq!(
        tokens,
        vec![
            Token::new(TokenType::Identifier, "a".to_string(), 1),
            Token::new(TokenType::Identifier, "d".to_string(), 3),
            Token::new(TokenType::Slash, "/".to_string(), 3),
            Token::new(TokenType::Identifier, "e".to_string(), 3),
            Token::new(TokenType::Eof, String::new(), 3),
        ]
    );
}

#[test]
fn blanks_are_skipped_and_lines_counted() {
    let (tokens, _) = scan(" \t\r\n\n  x\n");
    assert_eq!(
        tokens,
        vec![
            Token::new(TokenType::Identifier, "x".to_string(), 3),
            Token::new(TokenType::Eof, String::new(), 4),
        ]
    );
}

#[test]
fn output_ends_with_a_single_eof() {
    for source in ["", "a", "\"open", "1 + 2 // x", "@@@", "\n\n"] {
        let (tokens, _) = scan(source);
        let eofs = tokens.iter().filter(|token| token.token_type == TokenType::Eof).count();
        assert_eq!(eofs, 1);
        assert_eq!(tokens.last().unwrap().token_type, TokenType::Eof);
    }
}

#[test]
fn lexemes_are_stretches_of_the_source() {
    let source = "var a = \"x\ny\"; // c\nfun f(b) { return b >= 1.5; }";
    let (tokens, _) = scan(source);
    let lines = source.matches('\n').count() + 1;
    for token in &tokens {
        assert!(source.contains(token.lexeme.as_str()));
        assert!(1 <= token.line && token.line <= lines);
    }
}

#[test]
fn the_scanner_keeps_earlier_reports() {
    let mut reporter = ErrorReporter::new();
    let (_, first) = Scanner::new("@".to_string(), ErrorReporter::new()).scan_tokens();
    for diagnostic in first.diagnostics {
        reporter.error(diagnostic);
    }
    let (_, reporter) = Scanner::new("#\n#".to_string(), reporter).scan_tokens();
    assert_eq!(reporter.diagnostics.len(), 3);
}

#[test]
fn scan_is_a_scanner_with_a_new_reporter() {
    let source = "var a = 1;\n@";
    let (tokens, reporter) = Scanner::scan(source.to_string());
    let (same, known) = scan(source);
    assert_eq!(tokens, same);
    assert_eq!(reporter.diagnostics, known.diagnostics);
    assert!(reporter.had_error);
    assert_eq!(tokens.len(), 6);
    assert_eq!(tokens[5], Token::new(TokenType::Eof, String::new(), 2));
}
