use rust_lox_impl::bubble_closure::ThenTry;
use rust_lox_impl::builtin_functions::{Clock, Print, PrintEnv};
use rust_lox_impl::callable::{Callable, LoxCallable};
use rust_lox_impl::environment::{Environment, Scope};
use rust_lox_impl::error::error_reporter::{Diagnostic, ErrorReporter};
use rust_lox_impl::error::runtime_error::RuntimeError;
use rust_lox_impl::error::scan_error::{ScanError, ScanErrorCtx};
use rust_lox_impl::interpreter::{Action, Interpreter};
use rust_lox_impl::lox::{Lox, Mode};
use rust_lox_impl::object::{LoxObject, Number};
use rust_lox_impl::operators::{
    evaluate_binary, evaluate_literal, evaluate_logical_expression, evaluate_unary, ArithmeticOp,
    Evaluation, Request,
};
use rust_lox_impl::token::{Token, TokenKind, TokenType};
use rust_lox_impl::util::{
    decimal, is_alpha, is_alpha_numeric, is_digit, keyword_kind, keywords, strip_quotes, to_chars,
};

fn number(value: f64) -> Number {
    Number { bits: value.to_bits() }
}

fn samples() -> Vec<f64> {
    vec![
        0.0,
        -0.0,
        1.0,
        -1.0,
        0.5,
        -0.5,
        1.0e300,
        -1.0e300,
        5e-324,
        -5e-324,
        f64::MAX,
        f64::MIN,
        f64::MIN_POSITIVE,
        f64::INFINITY,
        f64::NEG_INFINITY,
        f64::NAN,
        -f64::NAN,
        3.0,
        3.0000000000000004,
    ]
}

#[test]
fn number_comparisons_agree_with_the_machine() {
    for a in samples() {
        for b in samples() {
            let (x, y) = (number(a), number(b));
            assert_eq!(x.equals(y), a == b, "{} == {}", a, b);
            assert_eq!(x.less(y), a < b, "{} < {}", a, b);
            assert_eq!(x.less_equal(y), a <= b, "{} <= {}", a, b);
        }
    }
}

#[test]
fn number_negation_agrees_with_the_machine() {
    for a in samples() {
        assert_eq!(number(a).negate().bits, (-a).to_bits());
        assert_eq!(number(a).is_nan(), a.is_nan());
        assert_eq!(number(a).is_negative(), a.is_sign_negative());
    }
}

#[test]
fn only_false_and_nil_are_falsey() {
    assert!(!LoxObject::Boolean(false).is_truthy());
    assert!(!LoxObject::Nil.is_truthy());
    assert!(LoxObject::Boolean(true).is_truthy());
    assert!(LoxObject::Number(number(0.0)).is_truthy());
    assert!(LoxObject::Number(number(f64::NAN)).is_truthy());
    assert!(LoxObject::String(String::new()).is_truthy());
    assert!(LoxObject::Function(Callable::Clock(Clock {})).is_truthy());
}

#[test]
fn equality_of_values() {
    let clock = LoxObject::Function(Callable::Clock(Clock {}));
    assert!(LoxObject::Nil.equals(&LoxObject::Nil));
    assert!(LoxObject::String("a".to_string()).equals(&LoxObject::String("a".to_string())));
    assert!(!LoxObject::String("a".to_string()).equals(&LoxObject::String("b".to_string())));
    assert!(LoxObject::Number(number(0.0)).equals(&LoxObject::Number(number(-0.0))));
    assert!(!LoxObject::Number(number(f64::NAN)).equals(&LoxObject::Number(number(f64::NAN))));
    assert!(!LoxObject::Number(number(1.0)).equals(&LoxObject::String("1".to_string())));
    assert!(!LoxObject::Nil.equals(&LoxObject::Boolean(false)));
    assert!(!clock.equals(&clock));
}

#[test]
fn builtins_know_their_arity_and_name() {
    assert_eq!((Clock {}.arity(), Clock {}.name()), (0, "clock".to_string()));
    assert_eq!((PrintEnv {}.arity(), PrintEnv {}.name()), (0, "print_env".to_string()));
    assert_eq!((Print {}.arity(), Print {}.name()), (1, "print".to_string()));
    assert_eq!(Callable::Print(Print {}).arity(), 1);
}

fn token(token_type: TokenType, lexeme: &str) -> Token {
    Token::new(token_type, lexeme.to_string(), 7)
}

fn message(evaluation: Evaluation) -> String {
    match evaluation {
        Evaluation::Error(RuntimeError::WithMsg(_, message)) => message,
        other => panic!("{:?}", other),
    }
}

#[test]
fn literals_evaluate_to_their_value() {
    match evaluate_literal(&token(TokenType::String("s".to_string()), "\"s\"")) {
        Evaluation::Value(LoxObject::String(text)) => assert_eq!(text, "s"),
        other => panic!("{:?}", other),
    }
    match evaluate_literal(&token(TokenType::Number("1.5".to_string()), "1.5")) {
        Evaluation::Ask(request) => assert_eq!(request, Request::Decode("1.5".to_string())),
        other => panic!("{:?}", other),
    }
    assert!(matches!(
        evaluate_literal(&token(TokenType::True, "true")),
        Evaluation::Value(LoxObject::Boolean(true))
    ));
    assert!(matches!(
        evaluate_literal(&token(TokenType::False, "false")),
        Evaluation::Value(LoxObject::Boolean(false))
    ));
    assert!(matches!(
        evaluate_literal(&token(TokenType::Nil, "nil")),
        Evaluation::Value(LoxObject::Nil)
    ));
    assert_eq!(
        message(evaluate_literal(&token(TokenType::Plus, "+"))),
        "Parsed token + as a Literal"
    );
}

#[test]
fn arithmetic_is_asked_for_with_its_operands_in_order() {
    let (l, r) = (number(6.0), number(3.0));
    for (token_type, lexeme, op) in [
        (TokenType::Plus, "+", ArithmeticOp::Add),
        (TokenType::Minus, "-", ArithmeticOp::Subtract),
        (TokenType::Star, "*", ArithmeticOp::Multiply),
        (TokenType::Slash, "/", ArithmeticOp::Divide),
    ] {
        match evaluate_binary(&token(token_type, lexeme), LoxObject::Number(l), LoxObject::Number(r)) {
            Evaluation::Ask(request) => assert_eq!(request, Request::Arithmetic(op, l, r)),
            other => panic!("{:?}", other),
        }
    }
}

#[test]
fn operators_reject_what_they_cannot_take() {
    let text = || LoxObject::String("a".to_string());
    let one = || LoxObject::Number(number(1.0));
    assert_eq!(
        message(evaluate_binary(&token(TokenType::Plus, "+"), text(), one())),
        "Can only add number + number or concatenate string + string"
    );
    assert_eq!(
        message(evaluate_binary(&token(TokenType::Star, "*"), one(), LoxObject::Nil)),
        "Operator `*` only applies to number types"
    );
    assert_eq!(
        message(evaluate_binary(&token(TokenType::Comma, ","), one(), one())),
        "Cannot use token , for binary operation"
    );
    assert_eq!(
        message(evaluate_unary(&token(TokenType::Minus, "-"), LoxObject::Nil)),
        "Unary '-' can only be applied to numbers."
    );
    assert_eq!(
        message(evaluate_unary(&token(TokenType::Plus, "+"), one())),
        "token '+' cannot be used as unary"
    );
}

#[test]
fn logical_operators_decide_after_their_left_operand() {
    let and = token(TokenType::And, "and");
    let or = token(TokenType::Or, "or");
    assert!(evaluate_logical_expression(&and, &LoxObject::Boolean(false)));
    assert!(evaluate_logical_expression(&and, &LoxObject::Nil));
    assert!(!evaluate_logical_expression(&and, &LoxObject::Boolean(true)));
    assert!(!evaluate_logical_expression(&and, &LoxObject::Number(number(0.0))));
    assert!(evaluate_logical_expression(&or, &LoxObject::Boolean(true)));
    assert!(evaluate_logical_expression(&or, &LoxObject::String(String::new())));
    assert!(!evaluate_logical_expression(&or, &LoxObject::Boolean(false)));
    assert!(!evaluate_logical_expression(&or, &LoxObject::Nil));
}

#[test]
fn scope_defines_assigns_and_gets() {
    let mut scope = Scope::new();
    let a = "a".to_string();
    let b = "b".to_string();
    assert!(scope.get(&a).is_none());
    assert!(scope.assign(&a, LoxObject::Nil).is_none());
    assert!(scope.get(&a).is_none());
    assert!(scope.define(&a, LoxObject::Boolean(true)).is_none());
    assert!(matches!(scope.get(&a), Some(LoxObject::Boolean(true))));
    assert!(matches!(scope.define(&a, LoxObject::Nil), Some(LoxObject::Boolean(true))));
    assert!(matches!(scope.assign(&a, LoxObject::Boolean(false)), Some(LoxObject::Nil)));
    assert!(matches!(scope.get(&a), Some(LoxObject::Boolean(false))));
    assert!(scope.get(&b).is_none());
    assert!(scope.contains(&a) && !scope.contains(&b));
    assert_eq!(scope.bindings.len(), 1);
}

fn name(text: &str) -> Token {
    Token::new(TokenType::Identifier, text.to_string(), 3)
}

#[test]
fn environment_starts_with_the_builtins() {
    let environment = Environment::new();
    assert_eq!(environment.depth(), 1);
    assert!(matches!(
        environment.get(&name("clock")),
        Ok(LoxObject::Function(Callable::Clock(_)))
    ));
    assert!(matches!(
        environment.get(&name("print")),
        Ok(LoxObject::Function(Callable::Print(_)))
    ));
    assert!(matches!(
        environment.get(&name("print_env")),
        Ok(LoxObject::Function(Callable::PrintEnv(_)))
    ));
}

#[test]
fn environment_looks_outwards() {
    let mut environment = Environment::new();
    let x = "x".to_string();
    environment.define(&x, LoxObject::Boolean(true));
    let outer = environment.push_scope();
    assert_eq!((outer, environment.depth()), (0, 2));
    assert!(matches!(environment.get(&name("x")), Ok(LoxObject::Boolean(true))));
    environment.define(&x, LoxObject::Nil);
    assert!(matches!(environment.get(&name("x")), Ok(LoxObject::Nil)));
    assert!(environment.assign(&name("x"), LoxObject::Boolean(false)).is_ok());
    environment.pop_scope();
    assert_eq!(environment.depth(), 1);
    assert!(matches!(environment.get(&name("x")), Ok(LoxObject::Boolean(true))));
    environment.pop_scope();
    assert_eq!((environment.current(), environment.depth()), (0, 1));
}

#[test]
fn environment_assigns_in_the_nearest_holder() {
    let mut environment = Environment::new();
    environment.define(&"x".to_string(), LoxObject::Nil);
    environment.push_scope();
    environment.push_scope();
    assert!(environment.assign(&name("x"), LoxObject::Boolean(true)).is_ok());
    environment.pop_scope();
    environment.pop_scope();
    assert!(matches!(environment.get(&name("x")), Ok(LoxObject::Boolean(true))));
    match environment.assign(&name("y"), LoxObject::Nil) {
        Err(RuntimeError::WithMsg(ctx, message)) => {
            assert_eq!(message, "Undefined variable y");
            assert_eq!(ctx.token, name("y"));
        }
        other => panic!("{:?}", other),
    }
    assert!(environment.get(&name("y")).is_err());
}

#[test]
fn a_captured_scope_outlives_its_block() {
    let mut environment = Environment::new();
    let outer = environment.push_scope();
    environment.define(&"x".to_string(), LoxObject::Boolean(true));
    environment.capture();
    let closure = environment.current();
    environment.leave(outer);
    assert_eq!(environment.layers.len(), 2);
    let caller = environment.enter(closure);
    assert_eq!(environment.depth(), 3);
    assert!(matches!(environment.get(&name("x")), Ok(LoxObject::Boolean(true))));
    environment.leave(caller);
    assert_eq!((environment.layers.len(), environment.current()), (2, 0));
    assert!(environment.get(&name("x")).is_err());
}

#[test]
fn character_classes() {
    assert!(is_digit('0') && is_digit('9') && !is_digit('a') && !is_digit('/') && !is_digit(':'));
    assert!(is_alpha('a') && is_alpha('z') && is_alpha('A') && is_alpha('Z') && is_alpha('_'));
    assert!(!is_alpha('1') && !is_alpha('@') && !is_alpha('[') && !is_alpha('`') && !is_alpha('{'));
    assert!(is_alpha_numeric('a') && is_alpha_numeric('5') && is_alpha_numeric('_'));
    assert!(!is_alpha_numeric(' ') && !is_alpha_numeric('\u{e9}'));
}

#[test]
fn quotes_are_stripped() {
    assert_eq!(strip_quotes("\"abc\"".to_string()), "abc");
    assert_eq!(strip_quotes("\"\"".to_string()), "");
    assert_eq!(strip_quotes("\"h\u{e9}\"".to_string()), "h\u{e9}");
}

#[test]
fn keyword_table() {
    let table = keywords();
    assert_eq!(table.len(), 15);
    assert_eq!(table[0], ("and".to_string(), TokenType::And));
    assert_eq!(table[14], ("while".to_string(), TokenType::While));
    assert_eq!(keyword_kind(&"fun".to_string()), Some(TokenType::Fun));
    assert_eq!(keyword_kind(&"print".to_string()), None);
    assert_eq!(keyword_kind(&"Fun".to_string()), None);
}

#[test]
fn decimal_numerals_and_characters() {
    assert_eq!(decimal(0), "0");
    assert_eq!(decimal(7), "7");
    assert_eq!(decimal(10), "10");
    assert_eq!(decimal(255), "255");
    assert_eq!(decimal(1234567890), "1234567890");
    assert_eq!(to_chars("a\u{e9}b"), vec!['a', '\u{e9}', 'b']);
}

#[test]
fn token_types_have_a_text_and_a_kind() {
    assert_eq!(TokenType::LeftParen.to_string(), "(");
    assert_eq!(TokenType::And.to_string(), "&&");
    assert_eq!(TokenType::Or.to_string(), "||");
    assert_eq!(TokenType::String("s".to_string()).to_string(), "s");
    assert_eq!(TokenType::Number("1.5".to_string()).to_string(), "1.5");
    assert_eq!(TokenType::Eof.to_string(), "eof");
    assert_eq!(TokenKind::Identifier.to_string(), "identifier");
    assert_eq!(TokenType::String("s".to_string()).kind(), TokenKind::String);
    assert_eq!(Token::new(TokenType::Plus, "+".to_string(), 1).to_string(), "+");
}

#[test]
fn diagnostics_are_shown_in_their_formats() {
    let scan = ScanError::UnexpectedCharacter(ScanErrorCtx::from(12));
    assert_eq!(scan.line(), 12);
    assert_eq!(scan.to_string(), "[line 12] Error: Unexpected Character");
    let runtime = RuntimeError::new(name("x"), "Undefined variable x".to_string());
    assert_eq!(runtime.to_string(), "Undefined variable x\n[line 3]");
    assert_eq!(Diagnostic::Runtime(runtime).to_string(), "Undefined variable x\n[line 3]");
}

#[test]
fn the_reporter_keeps_what_it_is_handed() {
    let mut reporter = ErrorReporter::new();
    assert!(!reporter.had_error && reporter.diagnostics.is_empty());
    reporter.error(Diagnostic::Scan(ScanError::UnterminatedString(ScanErrorCtx::from(1))));
    reporter.error(Diagnostic::Scan(ScanError::UnexpectedCharacter(ScanErrorCtx::from(2))));
    assert!(reporter.had_error);
    assert_eq!(
        reporter.diagnostics,
        vec![
            Diagnostic::Scan(ScanError::UnterminatedString(ScanErrorCtx::from(1))),
            Diagnostic::Scan(ScanError::UnexpectedCharacter(ScanErrorCtx::from(2))),
        ]
    );
}

#[test]
fn then_try_runs_only_where_the_condition_holds() {
    let mut calls = 0;
    let skipped: Result<Option<u8>, String> = false.then_try(|| {
        calls += 1;
        Ok(1)
    });
    assert_eq!((skipped, calls), (Ok(None), 0));
    let ran: Result<Option<u8>, String> = true.then_try(|| Ok(2));
    assert_eq!(ran, Ok(Some(2)));
    let failed: Result<Option<u8>, String> = true.then_try(|| Err("no".to_string()));
    assert_eq!(failed, Err("no".to_string()));
}

#[test]
fn modes_and_exit_codes() {
    assert_eq!(Lox::mode_of(1), Some(Mode::Repl));
    assert_eq!(Lox::mode_of(2), Some(Mode::Script));
    assert_eq!(Lox::mode_of(0), None);
    assert_eq!(Lox::mode_of(3), None);

    let (broken, static_errors) = Lox::compile("var = ;".to_string());
    let mut lox = Lox::new();
    assert!(lox.mode.is_none());
    lox.mode = Some(Mode::Script);
    assert_eq!(lox.run(&broken, &static_errors), Some(65));
    assert_eq!(lox.interpreter.step(), Action::Finished);
    lox.mode = Some(Mode::Repl);
    assert_eq!(lox.run(&broken, &static_errors), None);
    assert_eq!(lox.interpreter.step(), Action::Finished);
    assert_eq!(lox.exit_code(), None);

    let (fine, no_errors) = Lox::compile("missing;".to_string());
    let mut lox = Lox::new();
    lox.mode = Some(Mode::Script);
    assert_eq!(lox.exit_code(), Some(0));
    assert_eq!(lox.run(&fine, &no_errors), None);
    assert!(matches!(lox.interpreter.run(100), Action::Fail(_)));
    assert_eq!(lox.exit_code(), Some(70));
}

#[test]
fn static_errors_of_both_stages_come_in_order() {
    let (stmts, reporter) = Lox::compile("@ var a = ; \"open".to_string());
    assert!(stmts.is_empty());
    let shown: Vec<String> = reporter.diagnostics.iter().map(|d| d.to_string()).collect();
    assert_eq!(
        shown,
        vec![
            "[line 1] Error: Unexpected Character",
            "[line 1] Error: Unterminated String",
            "[line 1] Error at ';': Expected Expression",
        ]
    );
}

#[test]
fn a_new_interpreter_has_nothing_to_do() {
    let mut interpreter = Interpreter::new();
    assert_eq!(interpreter.run(10), Action::Finished);
    assert!(!interpreter.error_reporter.had_error);
    interpreter.answer(LoxObject::Nil);
    assert_eq!(interpreter.step(), Action::Finished);
}

#[test]
fn runtime_errors_can_be_reported_directly() {
    let mut reporter = ErrorReporter::new();
    reporter.runtime_error(RuntimeError::new(name("x"), "boom".to_string()));
    assert!(reporter.had_error);
    assert_eq!(reporter.diagnostics.len(), 1);
    assert_eq!(reporter.diagnostics[0].to_string(), "boom\n[line 3]");
}

#[test]
fn a_definition_elsewhere_is_unseen_by_a_closure() {
    let mut environment = Environment::new();
    let x = "x".to_string();
    let outer = environment.push_scope();
    environment.define(&x, LoxObject::Boolean(true));
    environment.capture();
    let closure = environment.current();
    environment.leave(outer);
    environment.define(&x, LoxObject::Nil);
    let caller = environment.enter(closure);
    assert!(matches!(environment.get(&name("x")), Ok(LoxObject::Boolean(true))));
    environment.leave(caller);
    assert!(matches!(environment.get(&name("x")), Ok(LoxObject::Nil)));
}
