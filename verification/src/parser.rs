use crate::error::error_reporter::{Diagnostic, ErrorReporter};
use crate::error::parse_error::{ParseError, ParseErrorCtx};
use crate::grammar::{
    expr_views, lemma_block_view, lemma_call_view, lemma_function_view, option_expr_view,
    stmt_views, AssignmentExpr, BinaryExpr, BlockStmt, CallExpr, Expr, ExprView, ExpressionStmt,
    FunctionDeclarationStmt, GroupingExpr, IfStmt, LiteralExpr, ReturnStmt, Stmt, StmtView,
    UnaryExpr, VariableDeclarationStmt, VariableExpr, WhileStmt,
};
use crate::syntax::{
    advance, at_end, boundary, check, expect, parse_args_tail, parse_arguments, parse_assignment,
    parse_binary, parse_binary_tail, parse_block_items, parse_block_statement, parse_call,
    parse_call_tail, parse_condition, parse_declaration, parse_expression,
    parse_expression_statement, parse_finish_call, parse_for_initializer, parse_for_statement,
    parse_function_declaration, parse_if_statement, parse_item, parse_items, parse_operand,
    parse_optional_expression, parse_params, parse_params_tail, parse_primary, parse_program,
    parse_return_statement, parse_statement, parse_unary, parse_var_declaration,
    parse_while_statement, synchronize, well_formed, Cursor, Item, Level, Parse, MAX_ARGUMENTS,
};
use crate::token::{token_views, Token, TokenKind, TokenType, TokenView};
use vstd::prelude::*;
use vstd::string::*;

verus! {

pub type ParseResult<T> = Result<T, ParseError>;

/// The outcome of parsing an expression, as the grammar states it.
pub open spec fn expr_outcome(result: ParseResult<Expr>, cursor: Cursor) -> Parse<ExprView> {
    Parse {
        result: match result {
            Ok(expr) => Ok(expr@),
            Err(error) => Err(error@),
        },
        cursor,
    }
}

/// The outcome of parsing a statement, as the grammar states it.
pub open spec fn stmt_outcome(result: ParseResult<Stmt>, cursor: Cursor) -> Parse<StmtView> {
    Parse {
        result: match result {
            Ok(stmt) => Ok(stmt@),
            Err(error) => Err(error@),
        },
        cursor,
    }
}

/// The outcome of reading one token, as the grammar states it.
pub open spec fn token_outcome(result: ParseResult<Token>, cursor: Cursor) -> Parse<TokenView> {
    Parse {
        result: match result {
            Ok(token) => Ok(token@),
            Err(error) => Err(error@),
        },
        cursor,
    }
}

/// The outcome of parsing a block, as the grammar states it.
pub open spec fn block_outcome(result: ParseResult<BlockStmt>, cursor: Cursor) -> Parse<
    Seq<StmtView>,
> {
    Parse {
        result: match result {
            Ok(block) => Ok(stmt_views(block.body@)),
            Err(error) => Err(error@),
        },
        cursor,
    }
}

/// The outcome of parsing an expression that may be missing, as the grammar
/// states it.
pub open spec fn option_outcome(result: ParseResult<Option<Expr>>, cursor: Cursor) -> Parse<
    Option<ExprView>,
> {
    Parse {
        result: match result {
            Ok(expr) => Ok(option_expr_view(expr)),
            Err(error) => Err(error@),
        },
        cursor,
    }
}

/// The parser is responsible for taking a list of tokens and turning them
/// into a syntax tree.
pub struct Parser {
    /// The list of tokens to parse into a syntax tree.
    tokens: Vec<Token>,
    /// An index of where we are in the token list.
    current: usize,
    /// The sink for the errors met on the way.
    error_reporter: ErrorReporter,
}

impl Parser {
    /// The tokens that the parser reads.
    pub closed spec fn tokens(&self) -> Seq<TokenView> {
        token_views(self.tokens@)
    }

    /// Where the parser stands.
    pub closed spec fn cursor(&self) -> Cursor {
        Cursor {
            pos: self.current as int,
            reports: self.error_reporter@,
            had_error: self.error_reporter.had_error,
        }
    }

    /// The parser's tokens end with `Eof` and it stands at one of them.
    pub closed spec fn wf(&self) -> bool {
        well_formed(token_views(self.tokens@)) && self.current < self.tokens.len()
    }

    /// The parser `self` is the parser `before` after some parsing: it reads
    /// the same tokens and has not gone back.
    spec fn follows(&self, before: &Parser) -> bool {
        self.tokens == before.tokens && self.wf() && self.current >= before.current
    }

    /// A parser at the first of `tokens`, which have to end with `Eof`.
    /// Errors will go to `error_reporter`.
    pub fn new(tokens: Vec<Token>, error_reporter: ErrorReporter) -> (parser: Parser)
        requires
            well_formed(token_views(tokens@)),
        ensures
            parser.wf(),
            parser.tokens() == token_views(tokens@),
            parser.cursor() == (Cursor {
                pos: 0,
                reports: error_reporter@,
                had_error: error_reporter.had_error,
            }),
    {
        Self { tokens, current: 0, error_reporter }
    }

    /// Parses the tokens into Lox statements. A declaration with an error
    /// gives no statement: its error is handed to the reporter, which comes
    /// back with the statements, and parsing resumes at the next statement
    /// boundary.
    pub fn parse(self) -> (result: (Vec<Stmt>, ErrorReporter))
        requires
            self.wf(),
        ensures
            stmt_views(result.0@) == parse_program(self.tokens(), self.cursor()).statements,
            result.1@ == parse_program(self.tokens(), self.cursor()).cursor.reports,
            result.1.had_error == parse_program(self.tokens(), self.cursor()).cursor.had_error,
    {
        let mut parser = self;
        let mut statements: Vec<Stmt> = Vec::new();
        let ghost ts = parser.tokens();
        assert(stmt_views(statements@) =~= Seq::<StmtView>::empty());
        while !parser.is_at_end()
            invariant
                parser.follows(&self),
                ts == parser.tokens(),
                parse_items(ts, parser.cursor(), stmt_views(statements@)) == parse_program(
                    ts,
                    self.cursor(),
                ),
            decreases parser.tokens.len() - parser.current,
        {
            let ghost before = stmt_views(statements@);
            match parser.parse_item() {
                Some(stmt) => {
                    statements.push(stmt);
                    assert(stmt_views(statements@) =~= before + seq![stmt@]);
                },
                None => {
                    assert(stmt_views(statements@) =~= before + Seq::<StmtView>::empty());
                },
            }
        }
        (statements, parser.error_reporter)
    }

    /// Tries to parse a single statement, and returns the statement if
    /// successful or reports an error and synchronizes the parser.
    fn parse_item(&mut self) -> (stmt: Option<Stmt>)
        requires
            old(self).wf(),
        ensures
            final(self).follows(old(self)),
            !at_end(old(self).tokens(), old(self).current as int) ==> final(self).current > old(
                self,
            ).current,
            (Item {
                stmt: match stmt {
                    Some(stmt) => Some(stmt@),
                    None => None,
                },
                cursor: final(self).cursor(),
            }) == parse_item(old(self).tokens(), old(self).cursor()),
        decreases old(self).tokens.len() - old(self).current, 46int,
    {
        match self.declaration() {
            Ok(stmt) => Some(stmt),
            Err(error) => {
                self.report(error);
                self.synchronize();
                None
            },
        }
    }

    /// A declaration is the top level parsable entity. Tries to parse a
    /// function declaration or a variable declaration, or defaults to some
    /// other kind of statement.
    fn declaration(&mut self) -> (result: ParseResult<Stmt>)
        requires
            old(self).wf(),
        ensures
            final(self).follows(old(self)),
            result is Ok ==> final(self).current > old(self).current,
            stmt_outcome(result, final(self).cursor()) == parse_declaration(
                old(self).tokens(),
                old(self).cursor(),
            ),
        decreases old(self).tokens.len() - old(self).current, 45int,
    {
        if self.advance_on(TokenKind::Fun) {
            match self.function_declaration() {
                Ok(declaration) => Ok(Stmt::FunctionDeclaration(declaration)),
                Err(error) => Err(error),
            }
        } else if self.advance_on(TokenKind::Var) {
            match self.var_declaration() {
                Ok(declaration) => Ok(Stmt::VariableDeclaration(declaration)),
                Err(error) => Err(error),
            }
        } else {
            self.statement()
        }
    }

    /// Parses a function declaration statement. Triggered when a `fun` token
    /// is encountered.
    fn function_declaration(&mut self) -> (result: ParseResult<FunctionDeclarationStmt>)
        requires
            old(self).wf(),
        ensures
            final(self).follows(old(self)),
            stmt_outcome(
                match result {
                    Ok(declaration) => Ok(Stmt::FunctionDeclaration(declaration)),
                    Err(error) => Err(error),
                },
                final(self).cursor(),
            ) == parse_function_declaration(old(self).tokens(), old(self).cursor()),
        decreases old(self).tokens.len() - old(self).current, 41int,
    {
        // Parse the function name and the opening parenthesis.
        let name = match self.advance_on_or_err(TokenKind::Identifier) {
            Ok(token) => token,
            Err(error) => return Err(error),
        };
        let left_paren = match self.advance_on_or_err(TokenKind::LeftParen) {
            Ok(token) => token,
            Err(error) => return Err(error),
        };

        // Parse the function parameters if any
        let params = match self.params(&left_paren) {
            Ok(params) => params,
            Err(error) => return Err(error),
        };

        // Consume the closing parenthesis and the body of the function as a
        // block statement
        match self.advance_on_or_err(TokenKind::RightParen) {
            Ok(_) => {},
            Err(error) => return Err(error),
        }
        match self.advance_on_or_err(TokenKind::LeftBrace) {
            Ok(_) => {},
            Err(error) => return Err(error),
        }
        let body = match self.block_statement() {
            Ok(block) => block.body,
            Err(error) => return Err(error),
        };

        // Return the function declaration.
        let declaration = FunctionDeclarationStmt { name, params, body };
        proof {
            lemma_function_view(declaration);
        }
        Ok(declaration)
    }

    /// The parameters of a function, up to the closing parenthesis of
    /// their list, which `left_paren` opened.
    fn params(&mut self, left_paren: &Token) -> (result: ParseResult<Vec<Token>>)
        requires
            old(self).wf(),
        ensures
            final(self).follows(old(self)),
            (Parse {
                result: match result {
                    Ok(params) => Ok(token_views(params@)),
                    Err(error) => Err(error@),
                },
                cursor: final(self).cursor(),
            }) == parse_params(old(self).tokens(), old(self).cursor(), left_paren@),
    {
        let ghost ts = self.tokens();
        let mut params: Vec<Token> = Vec::new();
        if self.current_token_is_a(TokenKind::RightParen) {
            assert(token_views(params@) =~= Seq::<TokenView>::empty());
            return Ok(params);
        }
        // Parse the first parameter.
        let first = match self.advance_on_or_err(TokenKind::Identifier) {
            Ok(token) => token,
            Err(error) => return Err(error),
        };
        params.push(first);
        assert(token_views(params@) =~= seq![first@]);

        // Parse the comma and the next parameter if there is one.
        loop
            invariant
                self.follows(old(self)),
                ts == self.tokens(),
                parse_params_tail(ts, self.cursor(), token_views(params@), left_paren@)
                    == parse_params(ts, old(self).cursor(), left_paren@),
            decreases self.tokens.len() - self.current,
        {
            if !self.advance_on(TokenKind::Comma) {
                return Ok(params);
            }
            let param = match self.advance_on_or_err(TokenKind::Identifier) {
                Ok(token) => token,
                Err(error) => return Err(error),
            };
            let ghost before = token_views(params@);
            params.push(param);
            assert(token_views(params@) =~= before.push(param@));

            // A function can have no more than 255 parameters.
            if params.len() > MAX_ARGUMENTS {
                self.report(
                    ParseError::TooManyFunctionArguments(ParseErrorCtx::from(left_paren.clone())),
                );
            }
        }
    }

    /// Parses a variable declaration. Triggered when a `var` keyword is
    /// encountered.
    fn var_declaration(&mut self) -> (result: ParseResult<VariableDeclarationStmt>)
        requires
            old(self).wf(),
        ensures
            final(self).follows(old(self)),
            stmt_outcome(
                match result {
                    Ok(declaration) => Ok(Stmt::VariableDeclaration(declaration)),
                    Err(error) => Err(error),
                },
                final(self).cursor(),
            ) == parse_var_declaration(old(self).tokens(), old(self).cursor()),
        decreases old(self).tokens.len() - old(self).current, 41int,
    {
        // Parse the variable name
        let name = match self.advance_on_or_err(TokenKind::Identifier) {
            Ok(token) => token,
            Err(error) => return Err(error),
        };

        // If an `=` token is present, parse the expression after it as the
        // initial value for the variable.
        let initializer = if self.advance_on(TokenKind::Equal) {
            match self.expression() {
                Ok(expr) => Some(expr),
                Err(error) => return Err(error),
            }
        } else {
            None
        };

        // Consume the semi-colon to end the statement
        match self.advance_on_or_err(TokenKind::SemiColon) {
            Ok(_) => {},
            Err(error) => return Err(error),
        }

        // Return the variable declaration.
        Ok(VariableDeclarationStmt { name, initializer })
    }

    /// Handles statements which are not declarations.
    fn statement(&mut self) -> (result: ParseResult<Stmt>)
        requires
            old(self).wf(),
        ensures
            final(self).follows(old(self)),
            result is Ok ==> final(self).current > old(self).current,
            stmt_outcome(result, final(self).cursor()) == parse_statement(
                old(self).tokens(),
                old(self).cursor(),
            ),
        decreases old(self).tokens.len() - old(self).current, 44int,
    {
        if self.advance_on(TokenKind::If) {
            match self.if_statement() {
                Ok(stmt) => Ok(Stmt::If(stmt)),
                Err(error) => Err(error),
            }
        } else if self.advance_on(TokenKind::For) {
            // the for statement desugars to multiple wrapped
            // statements, which we handle in the function.
            self.for_statement()
        } else if self.advance_on(TokenKind::While) {
            match self.while_statement() {
                Ok(stmt) => Ok(Stmt::While(stmt)),
                Err(error) => Err(error),
            }
        } else if self.advance_on(TokenKind::Return) {
            match self.return_statement() {
                Ok(stmt) => Ok(Stmt::Return(stmt)),
                Err(error) => Err(error),
            }
        } else if self.advance_on(TokenKind::LeftBrace) {
            match self.block_statement() {
                Ok(block) => {
                    proof {
                        lemma_block_view(block);
                    }
                    Ok(Stmt::Block(block))
                },
                Err(error) => Err(error),
            }
        } else {
            self.expression_statement()
        }
    }

    /// Parses a for loop, and creates a desugared while loop representation
    /// ```text
    /// for (var i = 1; i <= 10; i = i + 1) {
    ///     print(i);
    /// }
    /// ```
    /// desugars to
    /// ```text
    /// {
    ///     var i = 1;
    ///     while(i <= 10) {
    ///         print(i);
    ///         i = i + 1;
    ///     }
    /// }
    /// ```
    #[verifier::rlimit(60)]
    fn for_statement(&mut self) -> (result: ParseResult<Stmt>)
        requires
            old(self).wf(),
        ensures
            final(self).follows(old(self)),
            stmt_outcome(result, final(self).cursor()) == parse_for_statement(
                old(self).tokens(),
                old(self).cursor(),
            ),
        decreases old(self).tokens.len() - old(self).current, 43int,
    {
        match self.advance_on_or_err(TokenKind::LeftParen) {
            Ok(_) => {},
            Err(error) => return Err(error),
        }

        // Parse the initializer
        let ghost ts = self.tokens();
        let ghost at_initializer = self.cursor();
        let initializer = match self.for_initializer() {
            Ok(initializer) => initializer,
            Err(error) => return Err(error),
        };

        // Parse the condition
        let ghost at_condition = self.cursor();
        let condition = match self.optional_expression(TokenKind::SemiColon) {
            Ok(condition) => condition,
            Err(error) => return Err(error),
        };
        let ghost after_condition = self.cursor();
        assert(parse_optional_expression(ts, at_condition, TokenKind::SemiColon) == Parse::ok(
            option_expr_view(condition),
            after_condition,
        ));
        match self.advance_on_or_err(TokenKind::SemiColon) {
            Ok(_) => {},
            Err(error) => return Err(error),
        }

        // Parse the increment
        let ghost at_increment = self.cursor();
        let increment = match self.optional_expression(TokenKind::RightParen) {
            Ok(increment) => increment,
            Err(error) => return Err(error),
        };
        let ghost after_increment = self.cursor();
        assert(parse_optional_expression(ts, at_increment, TokenKind::RightParen) == Parse::ok(
            option_expr_view(increment),
            after_increment,
        ));
        match self.advance_on_or_err(TokenKind::RightParen) {
            Ok(_) => {},
            Err(error) => return Err(error),
        }

        // Parse the body of the loop
        let body = match self.statement() {
            Ok(stmt) => stmt,
            Err(error) => return Err(error),
        };
        Ok(desugar_for(initializer, condition, increment, body))
    }

    /// The first clause of a `for`.
    fn for_initializer(&mut self) -> (result: ParseResult<Option<Stmt>>)
        requires
            old(self).wf(),
        ensures
            final(self).follows(old(self)),
            (Parse {
                result: match result {
                    Ok(Some(stmt)) => Ok(Some(stmt@)),
                    Ok(None) => Ok(None),
                    Err(error) => Err(error@),
                },
                cursor: final(self).cursor(),
            }) == parse_for_initializer(old(self).tokens(), old(self).cursor()),
        decreases old(self).tokens.len() - old(self).current, 42int,
    {
        if self.advance_on(TokenKind::SemiColon) {
            Ok(None)
        } else if self.advance_on(TokenKind::Var) {
            match self.var_declaration() {
                Ok(declaration) => Ok(Some(Stmt::VariableDeclaration(declaration))),
                Err(error) => Err(error),
            }
        } else {
            match self.expression_statement() {
                Ok(stmt) => Ok(Some(stmt)),
                Err(error) => Err(error),
            }
        }
    }

    /// An expression, unless the current token is of kind `end`.
    fn optional_expression(&mut self, end: TokenKind) -> (result: ParseResult<Option<Expr>>)
        requires
            old(self).wf(),
        ensures
            final(self).follows(old(self)),
            option_outcome(result, final(self).cursor()) == parse_optional_expression(
                old(self).tokens(),
                old(self).cursor(),
                end,
            ),
        decreases old(self).tokens.len() - old(self).current, 40int,
    {
        if !self.current_token_is_a(end) {
            match self.expression() {
                Ok(expr) => Ok(Some(expr)),
                Err(error) => Err(error),
            }
        } else {
            Ok(None)
        }
    }

    /// The condition in parentheses that follows `if` and `while`.
    fn condition(&mut self) -> (result: ParseResult<Expr>)
        requires
            old(self).wf(),
        ensures
            final(self).follows(old(self)),
            result is Ok ==> final(self).current > old(self).current,
            expr_outcome(result, final(self).cursor()) == parse_condition(
                old(self).tokens(),
                old(self).cursor(),
            ),
        decreases old(self).tokens.len() - old(self).current, 40int,
    {
        match self.advance_on_or_err(TokenKind::LeftParen) {
            Ok(_) => {},
            Err(error) => return Err(error),
        }
        let condition = match self.expression() {
            Ok(expr) => expr,
            Err(error) => return Err(error),
        };
        match self.advance_on_or_err(TokenKind::RightParen) {
            Ok(_) => {},
            Err(error) => return Err(error),
        }
        Ok(condition)
    }

    /// Parses a while loop
    fn while_statement(&mut self) -> (result: ParseResult<WhileStmt>)
        requires
            old(self).wf(),
        ensures
            final(self).follows(old(self)),
            stmt_outcome(
                match result {
                    Ok(stmt) => Ok(Stmt::While(stmt)),
                    Err(error) => Err(error),
                },
                final(self).cursor(),
            ) == parse_while_statement(old(self).tokens(), old(self).cursor()),
        decreases old(self).tokens.len() - old(self).current, 41int,
    {
        let condition = match self.condition() {
            Ok(expr) => expr,
            Err(error) => return Err(error),
        };
        let body = match self.statement() {
            Ok(stmt) => stmt,
            Err(error) => return Err(error),
        };
        Ok(WhileStmt { condition, body: Box::new(body) })
    }

    /// Parse a return statement
    fn return_statement(&mut self) -> (result: ParseResult<ReturnStmt>)
        requires
            old(self).wf(),
            old(self).current > 0,
        ensures
            final(self).follows(old(self)),
            stmt_outcome(
                match result {
                    Ok(stmt) => Ok(Stmt::Return(stmt)),
                    Err(error) => Err(error),
                },
                final(self).cursor(),
            ) == parse_return_statement(
                old(self).tokens(),
                old(self).cursor(),
                old(self).tokens()[old(self).current - 1],
            ),
        decreases old(self).tokens.len() - old(self).current, 41int,
    {
        let return_keyword = self.previous_token();
        let value = match self.optional_expression(TokenKind::SemiColon) {
            Ok(value) => value,
            Err(error) => return Err(error),
        };
        match self.advance_on_or_err(TokenKind::SemiColon) {
            Ok(_) => {},
            Err(error) => return Err(error),
        }
        Ok(ReturnStmt { return_keyword, value })
    }

    /// Parses an if statement
    fn if_statement(&mut self) -> (result: ParseResult<IfStmt>)
        requires
            old(self).wf(),
        ensures
            final(self).follows(old(self)),
            stmt_outcome(
                match result {
                    Ok(stmt) => Ok(Stmt::If(stmt)),
                    Err(error) => Err(error),
                },
                final(self).cursor(),
            ) == parse_if_statement(old(self).tokens(), old(self).cursor()),
        decreases old(self).tokens.len() - old(self).current, 41int,
    {
        let ghost ts = self.tokens();
        let ghost start = self.cursor();
        let condition = match self.condition() {
            Ok(expr) => expr,
            Err(error) => return Err(error),
        };
        let ghost after_condition = self.cursor();
        assert(parse_condition(ts, start) == Parse::ok(condition@, after_condition));
        let then_branch = match self.statement() {
            Ok(stmt) => Box::new(stmt),
            Err(error) => return Err(error),
        };
        let ghost after_then = self.cursor();
        assert(parse_statement(ts, after_condition) == Parse::ok(then_branch@, after_then));
        let else_branch = if self.advance_on(TokenKind::Else) {
            match self.statement() {
                Ok(stmt) => Some(Box::new(stmt)),
                Err(error) => return Err(error),
            }
        } else {
            None
        };
        let stmt = IfStmt { condition, then_branch, else_branch };
        assert(Stmt::If(stmt)@ == (StmtView::If {
            condition: condition@,
            then_branch: Box::new(then_branch@),
            else_branch: match else_branch {
                Some(branch) => Some(Box::new(branch@)),
                None => None,
            },
        }));
        Ok(stmt)
    }

    /// Parses a block stmt
    fn block_statement(&mut self) -> (result: ParseResult<BlockStmt>)
        requires
            old(self).wf(),
        ensures
            final(self).follows(old(self)),
            block_outcome(result, final(self).cursor()) == parse_block_statement(
                old(self).tokens(),
                old(self).cursor(),
            ),
        decreases old(self).tokens.len() - old(self).current, 48int,
    {
        let ghost ts = self.tokens();
        let mut statements: Vec<Stmt> = Vec::new();
        assert(stmt_views(statements@) =~= Seq::<StmtView>::empty());

        while !self.is_at_end() && !self.current_token_is_a(TokenKind::RightBrace)
            invariant
                self.follows(old(self)),
                ts == self.tokens(),
                parse_block_items(ts, self.cursor(), stmt_views(statements@)) == parse_block_items(
                    ts,
                    old(self).cursor(),
                    Seq::empty(),
                ),
            decreases self.tokens.len() - self.current,
        {
            let ghost before = stmt_views(statements@);
            match self.parse_item() {
                Some(stmt) => {
                    statements.push(stmt);
                    assert(stmt_views(statements@) =~= before + seq![stmt@]);
                },
                None => {
                    assert(stmt_views(statements@) =~= before + Seq::<StmtView>::empty());
                },
            }
        }

        match self.advance_on_or_err(TokenKind::RightBrace) {
            Ok(_) => {},
            Err(error) => return Err(error),
        }
        Ok(BlockStmt { body: statements })
    }

    /// Parses an expression statement
    fn expression_statement(&mut self) -> (result: ParseResult<Stmt>)
        requires
            old(self).wf(),
        ensures
            final(self).follows(old(self)),
            result is Ok ==> final(self).current > old(self).current,
            stmt_outcome(result, final(self).cursor()) == parse_expression_statement(
                old(self).tokens(),
                old(self).cursor(),
            ),
        decreases old(self).tokens.len() - old(self).current, 40int,
    {
        let expr = match self.expression() {
            Ok(expr) => expr,
            Err(error) => return Err(error),
        };
        match self.advance_on_or_err(TokenKind::SemiColon) {
            Ok(_) => {},
            Err(error) => return Err(error),
        }
        Ok(Stmt::Expression(ExpressionStmt { expr }))
    }

    /// expression -> assignment
    fn expression(&mut self) -> (result: ParseResult<Expr>)
        requires
            old(self).wf(),
        ensures
            final(self).follows(old(self)),
            result is Ok ==> final(self).current > old(self).current,
            expr_outcome(result, final(self).cursor()) == parse_expression(
                old(self).tokens(),
                old(self).cursor(),
            ),
        decreases old(self).tokens.len() - old(self).current, 31int,
    {
        self.assignment()
    }

    /// assignment -> some_var = assignment
    ///             | logic_or
    fn assignment(&mut self) -> (result: ParseResult<Expr>)
        requires
            old(self).wf(),
        ensures
            final(self).follows(old(self)),
            result is Ok ==> final(self).current > old(self).current,
            expr_outcome(result, final(self).cursor()) == parse_assignment(
                old(self).tokens(),
                old(self).cursor(),
            ),
        decreases old(self).tokens.len() - old(self).current, 30int,
    {
        // If we're looking at an assignment, this will trickle down to an
        // Expr::Variable
        let expr = match self.or() {
            Ok(expr) => expr,
            Err(error) => return Err(error),
        };

        if self.advance_on(TokenKind::Equal) {
            let equals = self.previous_token();
            let value = match self.assignment() {
                Ok(value) => value,
                Err(error) => return Err(error),
            };

            match expr {
                Expr::Variable(VariableExpr { name }) => {
                    return Ok(
                        Expr::Assignment(AssignmentExpr { variable: name, expr: Box::new(value) }),
                    );
                },
                _ => {
                    self.report(ParseError::InvalidAssignmentTarget(ParseErrorCtx::from(equals)));
                    return Ok(expr);
                },
            }
        }
        Ok(expr)
    }

    /// Parses an or expression
    fn or(&mut self) -> (result: ParseResult<Expr>)
        requires
            old(self).wf(),
        ensures
            final(self).follows(old(self)),
            result is Ok ==> final(self).current > old(self).current,
            expr_outcome(result, final(self).cursor()) == parse_binary(
                old(self).tokens(),
                old(self).cursor(),
                Level::Or,
            ),
        decreases old(self).tokens.len() - old(self).current, 28int,
    {
        self.binary(Level::Or)
    }

    /// Parses an and expression
    fn and(&mut self) -> (result: ParseResult<Expr>)
        requires
            old(self).wf(),
        ensures
            final(self).follows(old(self)),
            result is Ok ==> final(self).current > old(self).current,
            expr_outcome(result, final(self).cursor()) == parse_binary(
                old(self).tokens(),
                old(self).cursor(),
                Level::And,
            ),
        decreases old(self).tokens.len() - old(self).current, 24int,
    {
        self.binary(Level::And)
    }

    /// equality -> comparison (( != | ==) comparison )*
    fn equality(&mut self) -> (result: ParseResult<Expr>)
        requires
            old(self).wf(),
        ensures
            final(self).follows(old(self)),
            result is Ok ==> final(self).current > old(self).current,
            expr_outcome(result, final(self).cursor()) == parse_binary(
                old(self).tokens(),
                old(self).cursor(),
                Level::Equality,
            ),
        decreases old(self).tokens.len() - old(self).current, 20int,
    {
        self.binary(Level::Equality)
    }

    /// comparison -> term (( > | >= | < | <= ) term)*
    fn comparison(&mut self) -> (result: ParseResult<Expr>)
        requires
            old(self).wf(),
        ensures
            final(self).follows(old(self)),
            result is Ok ==> final(self).current > old(self).current,
            expr_outcome(result, final(self).cursor()) == parse_binary(
                old(self).tokens(),
                old(self).cursor(),
                Level::Comparison,
            ),
        decreases old(self).tokens.len() - old(self).current, 16int,
    {
        self.binary(Level::Comparison)
    }

    /// term -> factor ((+ | - ) factor)*
    fn term(&mut self) -> (result: ParseResult<Expr>)
        requires
            old(self).wf(),
        ensures
            final(self).follows(old(self)),
            result is Ok ==> final(self).current > old(self).current,
            expr_outcome(result, final(self).cursor()) == parse_binary(
                old(self).tokens(),
                old(self).cursor(),
                Level::Term,
            ),
        decreases old(self).tokens.len() - old(self).current, 12int,
    {
        self.binary(Level::Term)
    }

    /// factor -> unary (( / | * ) unary)*
    fn factor(&mut self) -> (result: ParseResult<Expr>)
        requires
            old(self).wf(),
        ensures
            final(self).follows(old(self)),
            result is Ok ==> final(self).current > old(self).current,
            expr_outcome(result, final(self).cursor()) == parse_binary(
                old(self).tokens(),
                old(self).cursor(),
                Level::Factor,
            ),
        decreases old(self).tokens.len() - old(self).current, 8int,
    {
        self.binary(Level::Factor)
    }

    /// An operand of the binary operators of tier `level`: an expression of
    /// the tier below.
    fn operand(&mut self, level: Level) -> (result: ParseResult<Expr>)
        requires
            old(self).wf(),
        ensures
            final(self).follows(old(self)),
            result is Ok ==> final(self).current > old(self).current,
            expr_outcome(result, final(self).cursor()) == parse_operand(
                old(self).tokens(),
                old(self).cursor(),
                level,
            ),
        decreases old(self).tokens.len() - old(self).current, 5 + 4 * level.rank(),
    {
        match level {
            Level::Factor => self.unary(),
            Level::Term => self.factor(),
            Level::Comparison => self.term(),
            Level::Equality => self.comparison(),
            Level::And => self.equality(),
            Level::Or => self.and(),
        }
    }

    /// An expression of tier `level`: operands joined by the operators of the
    /// tier, which associate to the left.
    fn binary(&mut self, level: Level) -> (result: ParseResult<Expr>)
        requires
            old(self).wf(),
        ensures
            final(self).follows(old(self)),
            result is Ok ==> final(self).current > old(self).current,
            expr_outcome(result, final(self).cursor()) == parse_binary(
                old(self).tokens(),
                old(self).cursor(),
                level,
            ),
        decreases old(self).tokens.len() - old(self).current, 7 + 4 * level.rank(),
    {
        let ghost ts = self.tokens();
        let mut expr = match self.operand(level) {
            Ok(expr) => expr,
            Err(error) => return Err(error),
        };
        loop
            invariant
                self.follows(old(self)),
                ts == self.tokens(),
                self.current > old(self).current,
                parse_binary_tail(ts, self.cursor(), level, expr@) == parse_binary(
                    ts,
                    old(self).cursor(),
                    level,
                ),
            decreases self.tokens.len() - self.current,
        {
            if self.is_at_end() || !level.has(self.tokens[self.current].token_type.kind()) {
                return Ok(expr);
            }
            let operator = self.current_token();
            self.advance();
            let right = match self.operand(level) {
                Ok(right) => right,
                Err(error) => return Err(error),
            };
            let binary = BinaryExpr { lhs: Box::new(expr), operator, rhs: Box::new(right) };
            expr = if level.is_logical() {
                Expr::Logical(binary)
            } else {
                Expr::Binary(binary)
            };
        }
    }

    /// unary -> ( ! | - ) unary
    ///        | call ;
    fn unary(&mut self) -> (result: ParseResult<Expr>)
        requires
            old(self).wf(),
        ensures
            final(self).follows(old(self)),
            result is Ok ==> final(self).current > old(self).current,
            expr_outcome(result, final(self).cursor()) == parse_unary(
                old(self).tokens(),
                old(self).cursor(),
            ),
        decreases old(self).tokens.len() - old(self).current, 4int,
    {
        if self.current_token_is_a(TokenKind::Bang) || self.current_token_is_a(TokenKind::Minus) {
            let operator = self.current_token();
            self.advance();
            let right = match self.unary() {
                Ok(right) => right,
                Err(error) => return Err(error),
            };
            Ok(Expr::Unary(UnaryExpr { operator, rhs: Box::new(right) }))
        } else {
            self.call()
        }
    }

    /// Parses a function call expression
    fn call(&mut self) -> (result: ParseResult<Expr>)
        requires
            old(self).wf(),
        ensures
            final(self).follows(old(self)),
            result is Ok ==> final(self).current > old(self).current,
            expr_outcome(result, final(self).cursor()) == parse_call(
                old(self).tokens(),
                old(self).cursor(),
            ),
        decreases old(self).tokens.len() - old(self).current, 3int,
    {
        let ghost ts = self.tokens();
        let mut expr = match self.primary() {
            Ok(expr) => expr,
            Err(error) => return Err(error),
        };

        // We loop to support multiple calls for functions that produce
        // functions
        // ```
        // iProduceAFunc()();
        // ```
        loop
            invariant
                self.follows(old(self)),
                ts == self.tokens(),
                self.current > old(self).current,
                parse_call_tail(ts, self.cursor(), expr@) == parse_call(ts, old(self).cursor()),
            decreases self.tokens.len() - self.current,
        {
            if self.advance_on(TokenKind::LeftParen) {
                expr = match self.finish_call(expr) {
                    Ok(call) => call,
                    Err(error) => return Err(error),
                };
            } else {
                return Ok(expr);
            }
        }
    }

    /// The rest of a call whose opening parenthesis has been read.
    fn finish_call(&mut self, callee: Expr) -> (result: ParseResult<Expr>)
        requires
            old(self).wf(),
        ensures
            final(self).follows(old(self)),
            expr_outcome(result, final(self).cursor()) == parse_finish_call(
                old(self).tokens(),
                old(self).cursor(),
                callee@,
            ),
        decreases old(self).tokens.len() - old(self).current, 34int,
    {
        let args = match self.arguments() {
            Ok(args) => args,
            Err(error) => return Err(error),
        };
        let closing_paren = match self.advance_on_or_err(TokenKind::RightParen) {
            Ok(token) => token,
            Err(error) => return Err(error),
        };
        let call = CallExpr { callee: Box::new(callee), closing_paren, args };
        proof {
            lemma_call_view(call);
        }
        Ok(Expr::Call(call))
    }

    /// The arguments of a call, up to its closing parenthesis.
    fn arguments(&mut self) -> (result: ParseResult<Vec<Expr>>)
        requires
            old(self).wf(),
        ensures
            final(self).follows(old(self)),
            (Parse {
                result: match result {
                    Ok(args) => Ok(expr_views(args@)),
                    Err(error) => Err(error@),
                },
                cursor: final(self).cursor(),
            }) == parse_arguments(old(self).tokens(), old(self).cursor()),
        decreases old(self).tokens.len() - old(self).current, 33int,
    {
        let ghost ts = self.tokens();
        let mut args: Vec<Expr> = Vec::new();
        if self.current_token_is_a(TokenKind::RightParen) {
            assert(expr_views(args@) =~= Seq::<ExprView>::empty());
            return Ok(args);
        }
        let first = match self.expression() {
            Ok(expr) => expr,
            Err(error) => return Err(error),
        };
        args.push(first);
        assert(expr_views(args@) =~= seq![first@]);
        loop
            invariant
                self.follows(old(self)),
                ts == self.tokens(),
                self.current > old(self).current,
                parse_args_tail(ts, self.cursor(), expr_views(args@)) == parse_arguments(
                    ts,
                    old(self).cursor(),
                ),
            decreases self.tokens.len() - self.current,
        {
            if !self.advance_on(TokenKind::Comma) {
                return Ok(args);
            }
            if args.len() >= MAX_ARGUMENTS {
                // The error is reported but not thrown: there is no need to
                // synchronize.
                let ctx = self.err_ctx();
                self.report(ParseError::TooManyFunctionArguments(ctx));
            }
            let arg = match self.expression() {
                Ok(expr) => expr,
                Err(error) => return Err(error),
            };
            let ghost before = expr_views(args@);
            args.push(arg);
            assert(expr_views(args@) =~= before.push(arg@));
        }
    }

    /// primary -> NUMBER | STRING | true | false | nil | IDENT
    ///          | ( expression )
    fn primary(&mut self) -> (result: ParseResult<Expr>)
        requires
            old(self).wf(),
        ensures
            final(self).follows(old(self)),
            result is Ok ==> final(self).current > old(self).current,
            expr_outcome(result, final(self).cursor()) == parse_primary(
                old(self).tokens(),
                old(self).cursor(),
            ),
        decreases old(self).tokens.len() - old(self).current, 1int,
    {
        if self.current_token_is_a(TokenKind::Identifier) {
            let name = self.current_token();
            self.advance();
            Ok(Expr::Variable(VariableExpr { name }))
        } else if self.advance_on(TokenKind::LeftParen) {
            // Handle a grouping
            let expr = match self.expression() {
                Ok(expr) => expr,
                Err(error) => return Err(error),
            };
            match self.advance_on_or_err(TokenKind::RightParen) {
                Ok(_) => {},
                Err(error) => return Err(error),
            }
            Ok(Expr::Grouping(GroupingExpr { expr: Box::new(expr) }))
        } else if self.current_token_is_a(TokenKind::True) || self.current_token_is_a(
            TokenKind::False,
        ) || self.current_token_is_a(TokenKind::Nil) || self.current_token_is_a(TokenKind::String)
            || self.current_token_is_a(TokenKind::Number) {
            // Handle bool, nil, String or Number
            let token = self.current_token();
            self.advance();
            Ok(Expr::Literal(LiteralExpr { token }))
        } else {
            // We've reached the bottom of the grammar and we don't know what
            // expression this is.
            Err(ParseError::ExpectedExpression(self.err_ctx()))
        }
    }

    /// Will advance the current token if it has the given kind, otherwise it
    /// will produce an error that names the kind.
    fn advance_on_or_err(&mut self, kind: TokenKind) -> (result: ParseResult<Token>)
        requires
            old(self).wf(),
        ensures
            final(self).follows(old(self)),
            result is Ok ==> final(self).current == old(self).current + 1,
            token_outcome(result, final(self).cursor()) == expect(
                old(self).tokens(),
                old(self).cursor(),
                kind,
            ),
    {
        if self.current_token_is_a(kind) {
            let token = self.current_token();
            self.advance();
            Ok(token)
        } else {
            Err(ParseError::ExpectedDifferentToken(self.err_ctx(), kind))
        }
    }

    /// Hands a parse error to the reporter.
    fn report(&mut self, error: ParseError)
        ensures
            final(self).tokens == old(self).tokens,
            final(self).current == old(self).current,
            final(self).wf() == old(self).wf(),
            final(self).cursor() == old(self).cursor().report(error@),
    {
        self.error_reporter.error(Diagnostic::Parse(error));
    }

    /// Tries to bring the parser to a statement boundary when an error is
    /// encountered.
    fn synchronize(&mut self)
        requires
            old(self).wf(),
        ensures
            final(self).follows(old(self)),
            final(self).error_reporter == old(self).error_reporter,
            final(self).current == synchronize(old(self).tokens(), old(self).current as int),
            !at_end(old(self).tokens(), old(self).current as int) ==> final(self).current > old(
                self,
            ).current,
    {
        let ghost ts = self.tokens();
        self.advance();

        // Advance until the previous token is a semicolon or the current
        // token is a keyword used to start a statement.
        while !self.is_at_end()
            invariant
                self.follows(old(self)),
                self.error_reporter == old(self).error_reporter,
                ts == self.tokens(),
                !at_end(ts, old(self).current as int) ==> self.current > old(self).current,
                boundary(ts, self.current as int) == synchronize(ts, old(self).current as int),
            decreases self.tokens.len() - self.current,
        {
            if self.current > 0 && self.tokens[self.current - 1].token_type.kind()
                == TokenKind::SemiColon {
                return ;
            }
            let kind = self.tokens[self.current].token_type.kind();
            if kind == TokenKind::Class || kind == TokenKind::For || kind == TokenKind::Fun || kind
                == TokenKind::If || kind == TokenKind::Print || kind == TokenKind::Return || kind
                == TokenKind::Var || kind == TokenKind::While {
                return ;
            }
            self.advance();
        }
    }

    /// Will advance the current token if it has the given kind. Returns
    /// whether or not the current token was advanced.
    fn advance_on(&mut self, kind: TokenKind) -> (advanced: bool)
        requires
            old(self).wf(),
        ensures
            final(self).follows(old(self)),
            final(self).error_reporter == old(self).error_reporter,
            advanced == check(old(self).tokens(), old(self).current as int, kind),
            final(self).current == if advanced {
                old(self).current + 1
            } else {
                old(self).current as int
            },
    {
        if self.current_token_is_a(kind) {
            self.advance();
            true
        } else {
            false
        }
    }

    /// Checks whether the current token is of a particular kind
    fn current_token_is_a(&self, kind: TokenKind) -> (is: bool)
        requires
            self.wf(),
        ensures
            is == check(self.tokens(), self.current as int, kind),
    {
        if self.is_at_end() {
            false
        } else {
            self.tokens[self.current].token_type.kind() == kind
        }
    }

    /// If not yet at the end of the tokens, advances the current token.
    fn advance(&mut self)
        requires
            old(self).wf(),
        ensures
            final(self).follows(old(self)),
            final(self).error_reporter == old(self).error_reporter,
            final(self).current == advance(old(self).tokens(), old(self).current as int),
    {
        if !self.is_at_end() {
            self.current += 1;
        }
    }

    /// Returns whether the current token is an EOF token
    fn is_at_end(&self) -> (ended: bool)
        requires
            self.wf(),
        ensures
            ended == at_end(self.tokens(), self.current as int),
    {
        self.tokens[self.current].token_type.kind() == TokenKind::Eof
    }

    /// Returns the current token in the list
    fn current_token(&self) -> (token: Token)
        requires
            self.wf(),
        ensures
            token@ == self.tokens()[self.current as int],
    {
        self.tokens[self.current].clone()
    }

    /// Convenience method for providing the context for a given ParseError.
    fn err_ctx(&self) -> (ctx: ParseErrorCtx)
        requires
            self.wf(),
        ensures
            ctx.token@ == self.tokens()[self.current as int],
    {
        ParseErrorCtx::from(self.current_token())
    }

    /// Returns the previous token in the list
    fn previous_token(&self) -> (token: Token)
        requires
            self.wf(),
            self.current > 0,
        ensures
            token@ == self.tokens()[self.current - 1],
    {
        self.tokens[self.current - 1].clone()
    }
}

/// Builds the loop that a `for` with the given clauses and body stands for.
fn desugar_for(
    initializer: Option<Stmt>,
    condition: Option<Expr>,
    increment: Option<Expr>,
    body: Stmt,
) -> (stmt: Stmt)
    ensures
        stmt@ == crate::syntax::desugar_for(
            match initializer {
                Some(stmt) => Some(stmt@),
                None => None,
            },
            option_expr_view(condition),
            option_expr_view(increment),
            body@,
        ),
{
    let mut body = body;
    // Add the increment as a final statement to execute in the desugared
    // while loop
    if let Some(inc) = increment {
        let mut stepped: Vec<Stmt> = Vec::new();
        stepped.push(body);
        stepped.push(Stmt::Expression(ExpressionStmt { expr: inc }));
        let block = BlockStmt { body: stepped };
        proof {
            lemma_block_view(block);
            assert(stmt_views(block.body@) =~= seq![
                body@,
                StmtView::Expression { expr: inc@ },
            ]);
        }
        body = Stmt::Block(block);
    }
    // If the condition is missing, set it to a simple literal true value.

    let condition = match condition {
        Some(condition) => condition,
        None => Expr::Literal(
            LiteralExpr { token: Token::new(TokenType::True, String::from_str("true"), 0) },
        ),
    };

    // Make the body a while loop which executes itself based on the condition
    body = Stmt::While(WhileStmt { condition, body: Box::new(body) });

    // Make the body a block stmt which includes the initializer and the while
    // loop
    if let Some(init) = initializer {
        let mut wrapped: Vec<Stmt> = Vec::new();
        wrapped.push(init);
        wrapped.push(body);
        let block = BlockStmt { body: wrapped };
        proof {
            lemma_block_view(block);
            assert(stmt_views(block.body@) =~= seq![init@, body@]);
        }
        body = Stmt::Block(block);
    }
    body
}

} // verus!
