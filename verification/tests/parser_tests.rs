use rust_lox_impl::error::error_reporter::{Diagnostic, ErrorReporter};
use rust_lox_impl::error::parse_error::{ParseError, ParseErrorCtx};
use rust_lox_impl::grammar::{
    AssignmentExpr, BinaryExpr, BlockStmt, CallExpr, Expr, ExpressionStmt, FunctionDeclarationStmt,
    GroupingExpr, IfStmt, LiteralExpr, ReturnStmt, Stmt, UnaryExpr, VariableDeclarationStmt,
    VariableExpr, WhileStmt,
};
use rust_lox_impl::parser::Parser;
use rust_lox_impl::scanner::Scanner;
use rust_lox_impl::token::{Token, TokenKind, TokenType};

fn parse(source: &str) -> (Vec<Stmt>, ErrorReporter) {
    let (tokens, reporter) = Scanner::new(source.to_string(), ErrorReporter::new()).scan_tokens();
    assert!(!reporter.had_error);
    Parser::new(tokens, reporter).parse()
}

fn parse_ok(source: &str) -> Vec<Stmt> {
    let (stmts, reporter) = parse(source);
    assert!(!reporter.had_error, "{:?}", reporter.diagnostics);
    stmts
}

fn token(token_type: TokenType, lexeme: &str) -> Token {
    Token::new(token_type, lexeme.to_string(), 1)
}

fn num(text: &str) -> Expr {
    Expr::Literal(LiteralExpr { token: token(TokenType::Number(text.to_string()), text) })
}

fn var(name: &str) -> Expr {
    Expr::Variable(VariableExpr { name: token(TokenType::Identifier, name) })
}

fn binary(lhs: Expr, token_type: TokenType, lexeme: &str, rhs: Expr) -> Expr {
    Expr::Binary(BinaryExpr {
        lhs: Box::new(lhs),
        operator: token(token_type, lexeme),
        rhs: Box::new(rhs),
    })
}

fn logical(lhs: Expr, token_type: TokenType, lexeme: &str, rhs: Expr) -> Expr {
    Expr::Logical(BinaryExpr {
        lhs: Box::new(lhs),
        operator: token(token_type, lexeme),
        rhs: Box::new(rhs),
    })
}

fn expression(expr: Expr) -> Stmt {
    Stmt::Expression(ExpressionStmt { expr })
}

fn messages(reporter: &ErrorReporter) -> Vec<String> {
    reporter.diagnostics.iter().map(|diagnostic| diagnostic.to_string()).collect()
}

#[test]
fn factor_binds_tighter_than_term() {
    assert_eq!(
        parse_ok("1 + 2 * 3;"),
        vec![expression(binary(
            num("1"),
            TokenType::Plus,
            "+",
            binary(num("2"), TokenType::Star, "*", num("3"))
        ))]
    );
}

#[test]
fn binary_operators_associate_to_the_left() {
    assert_eq!(
        parse_ok("1 - 2 - 3;"),
        vec![expression(binary(
            binary(num("1"), TokenType::Minus, "-", num("2")),
            TokenType::Minus,
            "-",
            num("3")
        ))]
    );
}

#[test]
fn the_tiers_nest_in_order() {
    assert_eq!(
        parse_ok("a or b and c == d < e + f / g;"),
        vec![expression(logical(
            var("a"),
            TokenType::Or,
            "or",
            logical(
                var("b"),
                TokenType::And,
                "and",
                binary(
                    var("c"),
                    TokenType::EqualEqual,
                    "==",
                    binary(
                        var("d"),
                        TokenType::Less,
                        "<",
                        binary(
                            var("e"),
                            TokenType::Plus,
                            "+",
                            binary(var("f"), TokenType::Slash, "/", var("g"))
                        )
                    )
                )
            )
        ))]
    );
}

#[test]
fn grouping_and_unary() {
    assert_eq!(
        parse_ok("-(1 + 2);"),
        vec![expression(Expr::Unary(UnaryExpr {
            operator: token(TokenType::Minus, "-"),
            rhs: Box::new(Expr::Grouping(GroupingExpr {
                expr: Box::new(binary(num("1"), TokenType::Plus, "+", num("2")))
            }))
        }))]
    );
    assert_eq!(
        parse_ok("!!x;"),
        vec![expression(Expr::Unary(UnaryExpr {
            operator: token(TokenType::Bang, "!"),
            rhs: Box::new(Expr::Unary(UnaryExpr {
                operator: token(TokenType::Bang, "!"),
                rhs: Box::new(var("x"))
            }))
        }))]
    );
}

#[test]
fn literals() {
    assert_eq!(
        parse_ok("true; false; nil; \"text\"; 1.5;"),
        vec![
            expression(Expr::Literal(LiteralExpr { token: token(TokenType::True, "true") })),
            expression(Expr::Literal(LiteralExpr { token: token(TokenType::False, "false") })),
            expression(Expr::Literal(LiteralExpr { token: token(TokenType::Nil, "nil") })),
            expression(Expr::Literal(LiteralExpr {
                token: token(TokenType::String("text".to_string()), "\"text\"")
            })),
            expression(num("1.5")),
        ]
    );
}

#[test]
fn assignment_associates_to_the_right() {
    assert_eq!(
        parse_ok("a = b = 1;"),
        vec![expression(Expr::Assignment(AssignmentExpr {
            variable: token(TokenType::Identifier, "a"),
            expr: Box::new(Expr::Assignment(AssignmentExpr {
                variable: token(TokenType::Identifier, "b"),
                expr: Box::new(num("1"))
            }))
        }))]
    );
}

#[test]
fn calls_chain() {
    assert_eq!(
        parse_ok("f(1, x)();"),
        vec![expression(Expr::Call(CallExpr {
            callee: Box::new(Expr::Call(CallExpr {
                callee: Box::new(var("f")),
                closing_paren: token(TokenType::RightParen, ")"),
                args: vec![num("1"), var("x")],
            })),
            closing_paren: token(TokenType::RightParen, ")"),
            args: vec![],
        }))]
    );
}

#[test]
fn declarations_and_statements() {
    assert_eq!(
        parse_ok("var a; var b = 1; { a; } if (a) b; else a; while (a) b; fun f(x, y) { return x; return; }"),
        vec![
            Stmt::VariableDeclaration(VariableDeclarationStmt {
                name: token(TokenType::Identifier, "a"),
                initializer: None
            }),
            Stmt::VariableDeclaration(VariableDeclarationStmt {
                name: token(TokenType::Identifier, "b"),
                initializer: Some(num("1"))
            }),
            Stmt::Block(BlockStmt { body: vec![expression(var("a"))] }),
            Stmt::If(IfStmt {
                condition: var("a"),
                then_branch: Box::new(expression(var("b"))),
                else_branch: Some(Box::new(expression(var("a")))),
            }),
            Stmt::While(WhileStmt { condition: var("a"), body: Box::new(expression(var("b"))) }),
            Stmt::FunctionDeclaration(FunctionDeclarationStmt {
                name: token(TokenType::Identifier, "f"),
                params: vec![token(TokenType::Identifier, "x"), token(TokenType::Identifier, "y")],
                body: vec![
                    Stmt::Return(ReturnStmt {
                        return_keyword: token(TokenType::Return, "return"),
                        value: Some(var("x"))
                    }),
                    Stmt::Return(ReturnStmt {
                        return_keyword: token(TokenType::Return, "return"),
                        value: None
                    }),
                ],
            }),
        ]
    );
}

#[test]
fn else_belongs_to_the_nearest_if() {
    assert_eq!(
        parse_ok("if (a) if (b) c; else d;"),
        vec![Stmt::If(IfStmt {
            condition: var("a"),
            then_branch: Box::new(Stmt::If(IfStmt {
                condition: var("b"),
                then_branch: Box::new(expression(var("c"))),
                else_branch: Some(Box::new(expression(var("d")))),
            })),
            else_branch: None,
        })]
    );
}

#[test]
fn for_is_desugared_to_while() {
    let increment = Expr::Assignment(AssignmentExpr {
        variable: token(TokenType::Identifier, "i"),
        expr: Box::new(binary(var("i"), TokenType::Plus, "+", num("1"))),
    });
    assert_eq!(
        parse_ok("for (var i = 0; i < 3; i = i + 1) f(i);"),
        vec![Stmt::Block(BlockStmt {
            body: vec![
                Stmt::VariableDeclaration(VariableDeclarationStmt {
                    name: token(TokenType::Identifier, "i"),
                    initializer: Some(num("0"))
                }),
                Stmt::While(WhileStmt {
                    condition: binary(var("i"), TokenType::Less, "<", num("3")),
                    body: Box::new(Stmt::Block(BlockStmt {
                        body: vec![
                            expression(Expr::Call(CallExpr {
                                callee: Box::new(var("f")),
                                closing_paren: token(TokenType::RightParen, ")"),
                                args: vec![var("i")],
                            })),
                            expression(increment),
                        ]
                    })),
                }),
            ]
        })]
    );
}

#[test]
fn for_without_clauses_loops_on_true() {
    assert_eq!(
        parse_ok("for (;;) a;"),
        vec![Stmt::While(WhileStmt {
            condition: Expr::Literal(LiteralExpr {
                token: Token::new(TokenType::True, "true".to_string(), 0)
            }),
            body: Box::new(expression(var("a"))),
        })]
    );
}

#[test]
fn for_with_an_expression_as_initializer() {
    assert_eq!(
        parse_ok("for (a; b;) c;"),
        vec![Stmt::Block(BlockStmt {
            body: vec![
                expression(var("a")),
                Stmt::While(WhileStmt { condition: var("b"), body: Box::new(expression(var("c"))) }),
            ]
        })]
    );
}

#[test]
fn missing_expression_is_reported_at_its_token() {
    let (stmts, reporter) = parse("1 + ;");
    assert!(stmts.is_empty());
    assert!(reporter.had_error);
    assert_eq!(
        reporter.diagnostics,
        vec![Diagnostic::Parse(ParseError::ExpectedExpression(ParseErrorCtx::from(token(
            TokenType::SemiColon,
            ";"
        ))))]
    );
    assert_eq!(messages(&reporter), vec!["[line 1] Error at ';': Expected Expression"]);
}

#[test]
fn missing_semicolon_is_reported_at_the_end() {
    let (stmts, reporter) = parse("var a = 1");
    assert!(stmts.is_empty());
    assert_eq!(
        reporter.diagnostics,
        vec![Diagnostic::Parse(ParseError::ExpectedDifferentToken(
            ParseErrorCtx::from(token(TokenType::Eof, "")),
            TokenKind::SemiColon
        ))]
    );
    assert_eq!(messages(&reporter), vec!["[line 1] Error at end: Expected ';'"]);
}

#[test]
fn invalid_assignment_target_is_reported_and_parsing_goes_on() {
    let (stmts, reporter) = parse("1 = 2; b;");
    assert_eq!(stmts, vec![expression(num("1")), expression(var("b"))]);
    assert_eq!(
        reporter.diagnostics,
        vec![Diagnostic::Parse(ParseError::InvalidAssignmentTarget(ParseErrorCtx::from(token(
            TokenType::Equal,
            "="
        ))))]
    );
    assert_eq!(messages(&reporter), vec!["[line 1] Error at '=': Invalid Assignment Target"]);
}

#[test]
fn the_parser_synchronizes_after_a_semicolon() {
    let (stmts, reporter) = parse("var = 1; a; ) b c; d;");
    assert_eq!(stmts, vec![expression(var("a")), expression(var("d"))]);
    assert_eq!(
        messages(&reporter),
        vec![
            "[line 1] Error at '=': Expected 'identifier'",
            "[line 1] Error at ')': Expected Expression",
        ]
    );
}

#[test]
fn the_parser_synchronizes_before_a_keyword() {
    let (stmts, reporter) = parse("a b c var d; (");
    assert_eq!(
        stmts,
        vec![Stmt::VariableDeclaration(VariableDeclarationStmt {
            name: token(TokenType::Identifier, "d"),
            initializer: None
        })]
    );
    assert_eq!(
        messages(&reporter),
        vec!["[line 1] Error at 'b': Expected ';'", "[line 1] Error at end: Expected Expression"]
    );
}

#[test]
fn errors_inside_a_block_leave_the_rest_of_it() {
    let (stmts, reporter) = parse("{ a; 1 +; b; }");
    assert_eq!(
        stmts,
        vec![Stmt::Block(BlockStmt { body: vec![expression(var("a")), expression(var("b"))] })]
    );
    assert_eq!(reporter.diagnostics.len(), 1);
}

#[test]
fn unclosed_block_is_an_error() {
    let (stmts, reporter) = parse("{ a;");
    assert!(stmts.is_empty());
    assert_eq!(messages(&reporter), vec!["[line 1] Error at end: Expected '}'"]);
}

fn call_with(arguments: usize) -> String {
    let mut source = String::from("f(");
    for i in 0..arguments {
        if i > 0 {
            source.push_str(", ");
        }
        source.push('1');
    }
    source.push_str(");");
    source
}

#[test]
fn up_to_255_arguments_pass() {
    let stmts = parse_ok(&call_with(255));
    match &stmts[0] {
        Stmt::Expression(ExpressionStmt { expr: Expr::Call(call) }) => {
            assert_eq!(call.args.len(), 255)
        }
        other => panic!("{:?}", other),
    }
}

#[test]
fn more_than_255_arguments_are_reported_but_parsed() {
    let (stmts, reporter) = parse(&call_with(257));
    match &stmts[0] {
        Stmt::Expression(ExpressionStmt { expr: Expr::Call(call) }) => {
            assert_eq!(call.args.len(), 257)
        }
        other => panic!("{:?}", other),
    }
    assert_eq!(
        messages(&reporter),
        vec![
            "[line 1] Error at '1': Cannot have more that 255 arguments for a function (Seriously chill)";
            2
        ]
    );
}

fn function_with(parameters: usize) -> String {
    let mut source = String::from("fun f(");
    for i in 0..parameters {
        if i > 0 {
            source.push_str(", ");
        }
        source.push_str(&format!("p{}", i));
    }
    source.push_str(") {}");
    source
}

#[test]
fn up_to_255_parameters_pass() {
    let stmts = parse_ok(&function_with(255));
    match &stmts[0] {
        Stmt::FunctionDeclaration(declaration) => assert_eq!(declaration.params.len(), 255),
        other => panic!("{:?}", other),
    }
}

#[test]
fn more_than_255_parameters_are_reported_but_parsed() {
    let (stmts, reporter) = parse(&function_with(256));
    match &stmts[0] {
        Stmt::FunctionDeclaration(declaration) => assert_eq!(declaration.params.len(), 256),
        other => panic!("{:?}", other),
    }
    assert_eq!(
        messages(&reporter),
        vec!["[line 1] Error at '(': Cannot have more that 255 arguments for a function (Seriously chill)"]
    );
}

#[test]
fn tokens_keep_their_lines() {
    let stmts = parse_ok("var a\n=\n1;\nreturn\na;");
    assert_eq!(
        stmts,
        vec![
            Stmt::VariableDeclaration(VariableDeclarationStmt {
                name: Token::new(TokenType::Identifier, "a".to_string(), 1),
                initializer: Some(Expr::Literal(LiteralExpr {
                    token: Token::new(TokenType::Number("1".to_string()), "1".to_string(), 3)
                })),
            }),
            Stmt::Return(ReturnStmt {
                return_keyword: Token::new(TokenType::Return, "return".to_string(), 4),
                value: Some(Expr::Variable(VariableExpr {
                    name: Token::new(TokenType::Identifier, "a".to_string(), 5)
                })),
            }),
        ]
    );
}

#[test]
fn print_is_an_ordinary_function_name() {
    assert_eq!(
        parse_ok("print(1);"),
        vec![expression(Expr::Call(CallExpr {
            callee: Box::new(var("print")),
            closing_paren: token(TokenType::RightParen, ")"),
            args: vec![num("1")],
        }))]
    );
}

#[test]
fn a_print_token_starts_a_statement_for_recovery() {
    let tokens = vec![
        token(TokenType::RightParen, ")"),
        token(TokenType::Identifier, "a"),
        token(TokenType::Print, "print"),
        token(TokenType::Identifier, "b"),
        token(TokenType::SemiColon, ";"),
        token(TokenType::Eof, ""),
    ];
    let (stmts, reporter) = Parser::new(tokens, ErrorReporter::new()).parse();
    assert!(stmts.is_empty());
    assert_eq!(
        messages(&reporter),
        vec![
            "[line 1] Error at ')': Expected Expression",
            "[line 1] Error at 'print': Expected Expression"
        ]
    );
}

use rust_lox_impl::printer::{print_expr, print_program, print_stmt, read_back};

const PROGRAMS: [&str; 12] = [
    "",
    "1;",
    "a = b = -c * (d + 1) / !e;",
    "a or b and c == d != e < f <= g > h >= i + j - k * l / m;",
    "f()(1)(a, b)(g(h(2), \"s\"));",
    "var a; var b = nil; var c = true or false;",
    "{ var a = 1; { a = 2; } {} }",
    "if (a) b; else if (c) d; else { e; }",
    "if (a) while (b) if (c) d; else e;",
    "while (a < 10) { a = a + 1; }",
    "fun f() {} fun g(a) { return; } fun h(a, b, c) { return a + b + c; }",
    "for (var i = 0; i < 3; i = i + 1) print(i); for (;;) x; for (a; ; b) { c; }",
];

#[test]
fn printing_and_reading_back_gives_the_same_program() {
    for source in PROGRAMS {
        let stmts = parse_ok(source);
        let tokens = print_program(&stmts);
        assert_eq!(tokens.last().unwrap().token_type, TokenType::Eof);
        let (again, reporter) = Parser::new(tokens, ErrorReporter::new()).parse();
        assert!(!reporter.had_error, "{}: {:?}", source, reporter.diagnostics);
        assert_eq!(again, stmts, "{}", source);
        let (again, reporter) = read_back(&stmts);
        assert!(!reporter.had_error);
        assert_eq!(again, stmts);
    }
}

fn text(tokens: &[Token]) -> String {
    tokens.iter().map(|token| token.lexeme.as_str()).collect::<Vec<_>>().join(" ")
}

#[test]
fn printed_text_scans_and_parses_to_the_same_text() {
    for source in PROGRAMS {
        let printed = text(&print_program(&parse_ok(source)));
        let again = text(&print_program(&parse_ok(&printed)));
        assert_eq!(again, printed, "{}", source);
    }
}

#[test]
fn a_printed_expression_and_statement() {
    let stmts = parse_ok("a = f(1, 2);");
    let mut tokens = Vec::new();
    print_stmt(&stmts[0], &mut tokens);
    assert_eq!(text(&tokens), "a = f ( 1 , 2 ) ;");
    let mut tokens = vec![token(TokenType::Nil, "nil")];
    print_expr(&binary(num("1"), TokenType::Plus, "+", var("x")), &mut tokens);
    assert_eq!(text(&tokens), "nil 1 + x");
    assert_eq!(text(&print_program(&parse_ok("for (;;) {}"))), "while ( true ) { } ");
}
