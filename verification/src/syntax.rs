//! The grammar of Lox, written as a function from a token sequence to the
//! statements it spells and the errors it holds.
//!
//! ```text
//! program      = declaration* Eof
//! declaration  = funDecl | varDecl | statement
//! funDecl      = "fun" IDENT "(" params? ")" block
//! params       = IDENT ("," IDENT)*
//! varDecl      = "var" IDENT ("=" expression)? ";"
//! statement    = ifStmt | whileStmt | forStmt | returnStmt | block | exprStmt
//! block        = "{" declaration* "}"
//! ifStmt       = "if" "(" expression ")" statement ("else" statement)?
//! whileStmt    = "while" "(" expression ")" statement
//! forStmt      = "for" "(" (varDecl | exprStmt | ";") expression? ";" expression? ")" statement
//! returnStmt   = "return" expression? ";"
//! exprStmt     = expression ";"
//! expression   = assignment
//! assignment   = IDENT "=" assignment | logic_or
//! logic_or     = logic_and ("or" logic_and)*
//! logic_and    = equality ("and" equality)*
//! equality     = comparison (("!="|"==") comparison)*
//! comparison   = term ((">"|">="|"<"|"<=") term)*
//! term         = factor (("+"|"-") factor)*
//! factor       = unary (("/"|"*") unary)*
//! unary        = ("!"|"-") unary | call
//! call         = primary ("(" args? ")")*
//! args         = expression ("," expression)*
//! primary      = NUMBER | STRING | "true" | "false" | "nil" | IDENT | "(" expression ")"
//! ```

use crate::error::error_reporter::DiagnosticView;
use crate::error::parse_error::ParseErrorView;
use crate::grammar::{ExprView, StmtView};
use crate::token::{TokenKind, TokenView};
use vstd::prelude::*;

verus! {

/// The most parameters or arguments that a function takes without a
/// complaint.
pub const MAX_ARGUMENTS: usize = 255;

/// Where the parser stands: at which token, and what it has reported.
pub struct Cursor {
    /// The index of the token to be read next.
    pub pos: int,
    /// Everything reported so far, in order.
    pub reports: Seq<DiagnosticView>,
    /// Whether anything was ever reported.
    pub had_error: bool,
}

/// The outcome of parsing one construct: the construct or the error that
/// stopped the parser, and where the parser stands after it.
pub struct Parse<T> {
    pub result: Result<T, ParseErrorView>,
    pub cursor: Cursor,
}

/// The outcome of parsing one declaration and recovering from its error, if
/// it had one: the statement, if there is one, and where the parser stands.
pub struct Item {
    pub stmt: Option<StmtView>,
    pub cursor: Cursor,
}

/// The outcome of parsing a whole token sequence.
pub struct Program {
    pub statements: Seq<StmtView>,
    pub cursor: Cursor,
}

/// The six tiers of binary operators, from the one that binds tightest.
#[derive(Debug, Clone, Copy, PartialEq, Eq, Structural)]
pub enum Level {
    Factor,
    Term,
    Comparison,
    Equality,
    And,
    Or,
}

impl Level {
    /// The place of the tier, counted from the tightest.
    pub open spec fn rank(self) -> nat {
        match self {
            Level::Factor => 0,
            Level::Term => 1,
            Level::Comparison => 2,
            Level::Equality => 3,
            Level::And => 4,
            Level::Or => 5,
        }
    }

    /// The tier whose expressions are the operands of this one. The operands
    /// of a factor are unary expressions.
    pub open spec fn spec_below(self) -> Option<Level> {
        match self {
            Level::Factor => None,
            Level::Term => Some(Level::Factor),
            Level::Comparison => Some(Level::Term),
            Level::Equality => Some(Level::Comparison),
            Level::And => Some(Level::Equality),
            Level::Or => Some(Level::And),
        }
    }

    /// True where a token of kind `kind` is an operator of this tier.
    pub open spec fn spec_has(self, kind: TokenKind) -> bool {
        match self {
            Level::Factor => kind == TokenKind::Slash || kind == TokenKind::Star,
            Level::Term => kind == TokenKind::Plus || kind == TokenKind::Minus,
            Level::Comparison => kind == TokenKind::GreaterEqual || kind == TokenKind::Greater
                || kind == TokenKind::LessEqual || kind == TokenKind::Less,
            Level::Equality => kind == TokenKind::BangEqual || kind == TokenKind::EqualEqual,
            Level::And => kind == TokenKind::And,
            Level::Or => kind == TokenKind::Or,
        }
    }

    /// True for the two tiers that short-circuit.
    pub open spec fn spec_is_logical(self) -> bool {
        self == Level::And || self == Level::Or
    }

    /// The tier whose expressions are the operands of this one.
    #[verifier::when_used_as_spec(spec_below)]
    pub fn below(self) -> (below: Option<Level>)
        ensures
            below == self.spec_below(),
    {
        match self {
            Level::Factor => None,
            Level::Term => Some(Level::Factor),
            Level::Comparison => Some(Level::Term),
            Level::Equality => Some(Level::Comparison),
            Level::And => Some(Level::Equality),
            Level::Or => Some(Level::And),
        }
    }

    /// True where a token of kind `kind` is an operator of this tier.
    #[verifier::when_used_as_spec(spec_has)]
    pub fn has(self, kind: TokenKind) -> (has: bool)
        ensures
            has == self.spec_has(kind),
    {
        match self {
            Level::Factor => kind == TokenKind::Slash || kind == TokenKind::Star,
            Level::Term => kind == TokenKind::Plus || kind == TokenKind::Minus,
            Level::Comparison => kind == TokenKind::GreaterEqual || kind == TokenKind::Greater
                || kind == TokenKind::LessEqual || kind == TokenKind::Less,
            Level::Equality => kind == TokenKind::BangEqual || kind == TokenKind::EqualEqual,
            Level::And => kind == TokenKind::And,
            Level::Or => kind == TokenKind::Or,
        }
    }

    /// True for the two tiers that short-circuit.
    #[verifier::when_used_as_spec(spec_is_logical)]
    pub fn is_logical(self) -> (logical: bool)
        ensures
            logical == self.spec_is_logical(),
    {
        match self {
            Level::And => true,
            Level::Or => true,
            _ => false,
        }
    }

    /// The expression that an operator of this tier makes of two operands.
    pub open spec fn combine(self, lhs: ExprView, operator: TokenView, rhs: ExprView) -> ExprView {
        if self.spec_is_logical() {
            ExprView::Logical { lhs: Box::new(lhs), operator, rhs: Box::new(rhs) }
        } else {
            ExprView::Binary { lhs: Box::new(lhs), operator, rhs: Box::new(rhs) }
        }
    }
}

impl Cursor {
    /// The cursor one token further on.
    pub open spec fn step(self) -> Cursor {
        Cursor { pos: self.pos + 1, ..self }
    }

    /// The cursor at position `pos`.
    pub open spec fn at(self, pos: int) -> Cursor {
        Cursor { pos, ..self }
    }

    /// This cursor at or after `from` and not past the last token. The
    /// parser never goes back nor past the end, so this is the cursor
    /// itself; it is written where a definition has to show that.
    pub open spec fn from(self, ts: Seq<TokenView>, from: int) -> Cursor {
        self.at(clamp(ts, from, self.pos))
    }

    /// The cursor after `error` was reported.
    pub open spec fn report(self, error: ParseErrorView) -> Cursor {
        Cursor {
            pos: self.pos,
            reports: self.reports.push(DiagnosticView::Parse(error)),
            had_error: true,
        }
    }
}

impl<T> Parse<T> {
    /// The construct `value`, with the parser left at `cursor`.
    pub open spec fn ok(value: T, cursor: Cursor) -> Parse<T> {
        Parse { result: Ok(value), cursor }
    }

    /// The error `error`, with the parser left at `cursor`.
    pub open spec fn err(error: ParseErrorView, cursor: Cursor) -> Parse<T> {
        Parse { result: Err(error), cursor }
    }

    /// The same failure, as the outcome of a larger construct.
    pub open spec fn failure<U>(self) -> Parse<U> {
        Parse { result: Err(self.result->Err_0), cursor: self.cursor }
    }

}

/// The position `pos`, moved into the range from `from` to the last token.
pub open spec fn clamp(ts: Seq<TokenView>, from: int, pos: int) -> int {
    if pos < from || from >= ts.len() {
        from
    } else if pos >= ts.len() {
        ts.len() - 1
    } else {
        pos
    }
}

/// A token sequence that a parser can read: it is not empty and its last
/// token is `Eof`.
pub open spec fn well_formed(ts: Seq<TokenView>) -> bool {
    ts.len() > 0 && ts.last().kind == TokenKind::Eof
}

/// The kind of the token at `pos`; `Eof` outside the sequence.
pub open spec fn kind_at(ts: Seq<TokenView>, pos: int) -> TokenKind {
    if 0 <= pos < ts.len() {
        ts[pos].kind
    } else {
        TokenKind::Eof
    }
}

/// True where the parser has reached an `Eof` token.
pub open spec fn at_end(ts: Seq<TokenView>, pos: int) -> bool {
    kind_at(ts, pos) == TokenKind::Eof
}

/// True where the token at `pos` is of kind `kind` and the parser is not at
/// the end.
pub open spec fn check(ts: Seq<TokenView>, pos: int, kind: TokenKind) -> bool {
    !at_end(ts, pos) && kind_at(ts, pos) == kind
}

/// The position after the token at `pos`; the parser does not go past `Eof`.
pub open spec fn advance(ts: Seq<TokenView>, pos: int) -> int {
    if at_end(ts, pos) {
        pos
    } else {
        pos + 1
    }
}

/// Reads a token of kind `kind`, or fails at the token that stands there.
pub open spec fn expect(ts: Seq<TokenView>, c: Cursor, kind: TokenKind) -> Parse<TokenView> {
    if check(ts, c.pos, kind) {
        Parse::ok(ts[c.pos], c.step())
    } else {
        Parse::err(ParseErrorView::ExpectedDifferentToken(ts[c.pos], kind), c)
    }
}

/// The literal `true` that stands for the missing condition of a `for`.
pub open spec fn true_token() -> TokenView {
    TokenView { kind: TokenKind::True, literal: Seq::empty(), lexeme: "true"@, line: 0 }
}

/// True where a token of kind `kind` tells the parser, after an error, that
/// a new statement begins.
pub open spec fn starts_statement(kind: TokenKind) -> bool {
    kind == TokenKind::Class || kind == TokenKind::For || kind == TokenKind::Fun || kind
        == TokenKind::If || kind == TokenKind::Print || kind == TokenKind::Return || kind
        == TokenKind::Var || kind == TokenKind::While
}

/// Where the search for a statement boundary ends that has come to `pos`:
/// at the end of the tokens, after a semicolon, or before a token that
/// starts a statement.
pub open spec fn boundary(ts: Seq<TokenView>, pos: int) -> int
    decreases ts.len() - pos,
{
    if at_end(ts, pos) {
        pos
    } else if kind_at(ts, pos - 1) == TokenKind::SemiColon || starts_statement(kind_at(ts, pos)) {
        pos
    } else {
        boundary(ts, pos + 1)
    }
}

/// Where the parser resumes after an error at `pos`: it drops one token and
/// then goes on to the next statement boundary.
pub open spec fn synchronize(ts: Seq<TokenView>, pos: int) -> int {
    boundary(ts, advance(ts, pos))
}

/// primary -> NUMBER | STRING | true | false | nil | IDENT | ( expression )
pub open spec fn parse_primary(ts: Seq<TokenView>, c: Cursor) -> Parse<ExprView>
    decreases ts.len() - c.pos, 1int,
{
    if check(ts, c.pos, TokenKind::Identifier) {
        Parse::ok(ExprView::Variable { name: ts[c.pos] }, c.step())
    } else if check(ts, c.pos, TokenKind::LeftParen) {
        let inner = parse_expression(ts, c.step());
        if inner.result is Err {
            inner
        } else {
            let close = expect(ts, inner.cursor, TokenKind::RightParen);
            if close.result is Err {
                close.failure()
            } else {
                Parse::ok(ExprView::Grouping { expr: Box::new(inner.result->Ok_0) }, close.cursor)
            }
        }
    } else if check(ts, c.pos, TokenKind::True) || check(ts, c.pos, TokenKind::False) || check(
        ts,
        c.pos,
        TokenKind::Nil,
    ) || check(ts, c.pos, TokenKind::String) || check(ts, c.pos, TokenKind::Number) {
        Parse::ok(ExprView::Literal { token: ts[c.pos] }, c.step())
    } else {
        Parse::err(ParseErrorView::ExpectedExpression(ts[c.pos]), c)
    }
}

/// The calls that follow a callee: each `(` opens one more.
pub open spec fn parse_call_tail(ts: Seq<TokenView>, c: Cursor, callee: ExprView) -> Parse<
    ExprView,
>
    decreases ts.len() - c.pos, 2int,
{
    if check(ts, c.pos, TokenKind::LeftParen) {
        let call = parse_finish_call(ts, c.step(), callee);
        if call.result is Err {
            call
        } else {
            parse_call_tail(ts, call.cursor.from(ts, c.pos + 1), call.result->Ok_0)
        }
    } else {
        Parse::ok(callee, c)
    }
}

/// call -> primary ( "(" args? ")" )*
pub open spec fn parse_call(ts: Seq<TokenView>, c: Cursor) -> Parse<ExprView>
    decreases ts.len() - c.pos, 3int,
{
    let callee = parse_primary(ts, c);
    if callee.result is Err {
        callee
    } else {
        parse_call_tail(ts, callee.cursor.from(ts, c.pos), callee.result->Ok_0)
    }
}

/// unary -> ( "!" | "-" ) unary | call
pub open spec fn parse_unary(ts: Seq<TokenView>, c: Cursor) -> Parse<ExprView>
    decreases ts.len() - c.pos, 4int,
{
    if check(ts, c.pos, TokenKind::Bang) || check(ts, c.pos, TokenKind::Minus) {
        let right = parse_unary(ts, c.step());
        if right.result is Err {
            right
        } else {
            Parse::ok(
                ExprView::Unary { operator: ts[c.pos], rhs: Box::new(right.result->Ok_0) },
                right.cursor,
            )
        }
    } else {
        parse_call(ts, c)
    }
}

/// An operand of tier `level`: an expression of the tier below.
pub open spec fn parse_operand(ts: Seq<TokenView>, c: Cursor, level: Level) -> Parse<ExprView>
    decreases ts.len() - c.pos, 5 + 3 * level.rank(),
{
    match level.spec_below() {
        Some(below) => parse_binary(ts, c, below),
        None => parse_unary(ts, c),
    }
}

/// The operators of tier `level` that follow the operand `lhs`, each with
/// its right operand. The operators associate to the left.
pub open spec fn parse_binary_tail(ts: Seq<TokenView>, c: Cursor, level: Level, lhs: ExprView)
    -> Parse<ExprView>
    decreases ts.len() - c.pos, 6 + 3 * level.rank(),
{
    if !at_end(ts, c.pos) && level.spec_has(kind_at(ts, c.pos)) {
        let right = parse_operand(ts, c.step(), level);
        if right.result is Err {
            right
        } else {
            parse_binary_tail(
                ts,
                right.cursor.from(ts, c.pos + 1),
                level,
                level.combine(lhs, ts[c.pos], right.result->Ok_0),
            )
        }
    } else {
        Parse::ok(lhs, c)
    }
}

/// An expression of tier `level`: operands of the tier below, joined by the
/// operators of the tier.
pub open spec fn parse_binary(ts: Seq<TokenView>, c: Cursor, level: Level) -> Parse<ExprView>
    decreases ts.len() - c.pos, 7 + 3 * level.rank(),
{
    let left = parse_operand(ts, c, level);
    if left.result is Err {
        left
    } else {
        parse_binary_tail(ts, left.cursor.from(ts, c.pos), level, left.result->Ok_0)
    }
}

/// assignment -> IDENT "=" assignment | logic_or
///
/// The left side is parsed as an expression. Where it is no variable, the
/// error is reported at the `=`, the right side is dropped, and the left
/// side is the result.
pub open spec fn parse_assignment(ts: Seq<TokenView>, c: Cursor) -> Parse<ExprView>
    decreases ts.len() - c.pos, 30int,
{
    let target = parse_binary(ts, c, Level::Or);
    if target.result is Err {
        target
    } else if check(ts, target.cursor.from(ts, c.pos).pos, TokenKind::Equal) {
        let equals = ts[target.cursor.from(ts, c.pos).pos];
        let value = parse_assignment(ts, target.cursor.from(ts, c.pos).step());
        if value.result is Err {
            value
        } else {
            match target.result->Ok_0 {
                ExprView::Variable { name } => Parse::ok(
                    ExprView::Assignment { variable: name, expr: Box::new(value.result->Ok_0) },
                    value.cursor,
                ),
                _ => Parse::ok(
                    target.result->Ok_0,
                    value.cursor.report(ParseErrorView::InvalidAssignmentTarget(equals)),
                ),
            }
        }
    } else {
        target
    }
}

/// expression -> assignment
pub open spec fn parse_expression(ts: Seq<TokenView>, c: Cursor) -> Parse<ExprView>
    decreases ts.len() - c.pos, 31int,
{
    parse_assignment(ts, c)
}

/// The arguments that follow the arguments `args`: each comma brings one
/// more. From the 256th on, each is reported at its first token.
pub open spec fn parse_args_tail(ts: Seq<TokenView>, c: Cursor, args: Seq<ExprView>) -> Parse<
    Seq<ExprView>,
>
    decreases ts.len() - c.pos, 32int,
{
    if check(ts, c.pos, TokenKind::Comma) {
        let after = if args.len() >= MAX_ARGUMENTS {
            c.step().report(ParseErrorView::TooManyFunctionArguments(ts[c.pos + 1]))
        } else {
            c.step()
        };
        let arg = parse_expression(ts, after);
        if arg.result is Err {
            arg.failure()
        } else {
            parse_args_tail(ts, arg.cursor.from(ts, c.pos + 1), args.push(arg.result->Ok_0))
        }
    } else {
        Parse::ok(args, c)
    }
}

/// The arguments of a call whose `(` has been read, up to but without the
/// `)`.
pub open spec fn parse_arguments(ts: Seq<TokenView>, c: Cursor) -> Parse<Seq<ExprView>>
    decreases ts.len() - c.pos, 33int,
{
    if check(ts, c.pos, TokenKind::RightParen) {
        Parse::ok(Seq::empty(), c)
    } else {
        let first = parse_expression(ts, c);
        if first.result is Err {
            first.failure()
        } else {
            parse_args_tail(ts, first.cursor.from(ts, c.pos), seq![first.result->Ok_0])
        }
    }
}

/// The rest of a call whose `(` has been read: the arguments and the `)`.
pub open spec fn parse_finish_call(ts: Seq<TokenView>, c: Cursor, callee: ExprView) -> Parse<
    ExprView,
>
    decreases ts.len() - c.pos, 34int,
{
    let args = parse_arguments(ts, c);
    if args.result is Err {
        args.failure()
    } else {
        let close = expect(ts, args.cursor, TokenKind::RightParen);
        if close.result is Err {
            close.failure()
        } else {
            Parse::ok(
                ExprView::Call {
                    callee: Box::new(callee),
                    closing_paren: close.result->Ok_0,
                    args: args.result->Ok_0,
                },
                close.cursor,
            )
        }
    }
}

/// exprStmt -> expression ";"
pub open spec fn parse_expression_statement(ts: Seq<TokenView>, c: Cursor) -> Parse<StmtView>
    decreases ts.len() - c.pos, 40int,
{
    let expr = parse_expression(ts, c);
    if expr.result is Err {
        expr.failure()
    } else {
        let semicolon = expect(ts, expr.cursor, TokenKind::SemiColon);
        if semicolon.result is Err {
            semicolon.failure()
        } else {
            Parse::ok(StmtView::Expression { expr: expr.result->Ok_0 }, semicolon.cursor)
        }
    }
}

/// An expression, unless the token at hand is of kind `end`.
pub open spec fn parse_optional_expression(ts: Seq<TokenView>, c: Cursor, end: TokenKind)
    -> Parse<Option<ExprView>>
    decreases ts.len() - c.pos, 40int,
{
    if check(ts, c.pos, end) {
        Parse::ok(None, c)
    } else {
        let expr = parse_expression(ts, c);
        if expr.result is Err {
            expr.failure()
        } else {
            Parse::ok(Some(expr.result->Ok_0), expr.cursor)
        }
    }
}

/// The rest of a return statement whose keyword `keyword` has been read.
pub open spec fn parse_return_statement(ts: Seq<TokenView>, c: Cursor, keyword: TokenView)
    -> Parse<StmtView>
    decreases ts.len() - c.pos, 41int,
{
    let value = parse_optional_expression(ts, c, TokenKind::SemiColon);
    if value.result is Err {
        value.failure()
    } else {
        let semicolon = expect(ts, value.cursor, TokenKind::SemiColon);
        if semicolon.result is Err {
            semicolon.failure()
        } else {
            Parse::ok(
                StmtView::Return { return_keyword: keyword, value: value.result->Ok_0 },
                semicolon.cursor,
            )
        }
    }
}

/// The rest of a variable declaration whose `var` has been read.
pub open spec fn parse_var_declaration(ts: Seq<TokenView>, c: Cursor) -> Parse<StmtView>
    decreases ts.len() - c.pos, 41int,
{
    let name = expect(ts, c, TokenKind::Identifier);
    if name.result is Err {
        name.failure()
    } else {
        let initializer = if check(ts, name.cursor.pos, TokenKind::Equal) {
            let value = parse_expression(ts, name.cursor.step());
            if value.result is Err {
                value.failure()
            } else {
                Parse::ok(Some(value.result->Ok_0), value.cursor)
            }
        } else {
            Parse::ok(None, name.cursor)
        };
        if initializer.result is Err {
            initializer.failure()
        } else {
            let semicolon = expect(ts, initializer.cursor, TokenKind::SemiColon);
            if semicolon.result is Err {
                semicolon.failure()
            } else {
                Parse::ok(
                    StmtView::VariableDeclaration {
                        name: name.result->Ok_0,
                        initializer: initializer.result->Ok_0,
                    },
                    semicolon.cursor,
                )
            }
        }
    }
}

/// The condition in parentheses that follows `if` and `while`.
pub open spec fn parse_condition(ts: Seq<TokenView>, c: Cursor) -> Parse<ExprView>
    decreases ts.len() - c.pos, 40int,
{
    let open = expect(ts, c, TokenKind::LeftParen);
    if open.result is Err {
        open.failure()
    } else {
        let condition = parse_expression(ts, open.cursor);
        if condition.result is Err {
            condition
        } else {
            let close = expect(ts, condition.cursor, TokenKind::RightParen);
            if close.result is Err {
                close.failure()
            } else {
                Parse::ok(condition.result->Ok_0, close.cursor)
            }
        }
    }
}

/// The rest of a while statement whose keyword has been read.
pub open spec fn parse_while_statement(ts: Seq<TokenView>, c: Cursor) -> Parse<StmtView>
    decreases ts.len() - c.pos, 41int,
{
    let condition = parse_condition(ts, c);
    if condition.result is Err {
        condition.failure()
    } else {
        let body = parse_statement(ts, condition.cursor.from(ts, c.pos + 1));
        if body.result is Err {
            body
        } else {
            Parse::ok(
                StmtView::While {
                    condition: condition.result->Ok_0,
                    body: Box::new(body.result->Ok_0),
                },
                body.cursor,
            )
        }
    }
}

/// The rest of an if statement whose keyword has been read.
pub open spec fn parse_if_statement(ts: Seq<TokenView>, c: Cursor) -> Parse<StmtView>
    decreases ts.len() - c.pos, 41int,
{
    let condition = parse_condition(ts, c);
    if condition.result is Err {
        condition.failure()
    } else {
        let then_branch = parse_statement(ts, condition.cursor.from(ts, c.pos + 1));
        if then_branch.result is Err {
            then_branch
        } else if check(ts, then_branch.cursor.from(ts, c.pos + 1).pos, TokenKind::Else) {
            let else_branch = parse_statement(ts, then_branch.cursor.from(ts, c.pos + 1).step());
            if else_branch.result is Err {
                else_branch
            } else {
                Parse::ok(
                    StmtView::If {
                        condition: condition.result->Ok_0,
                        then_branch: Box::new(then_branch.result->Ok_0),
                        else_branch: Some(Box::new(else_branch.result->Ok_0)),
                    },
                    else_branch.cursor,
                )
            }
        } else {
            Parse::ok(
                StmtView::If {
                    condition: condition.result->Ok_0,
                    then_branch: Box::new(then_branch.result->Ok_0),
                    else_branch: None,
                },
                then_branch.cursor,
            )
        }
    }
}

/// The first clause of a `for`: nothing but a semicolon, a variable
/// declaration, or an expression statement.
pub open spec fn parse_for_initializer(ts: Seq<TokenView>, c: Cursor) -> Parse<Option<StmtView>>
    decreases ts.len() - c.pos, 42int,
{
    if check(ts, c.pos, TokenKind::SemiColon) {
        Parse::ok(None, c.step())
    } else {
        let initializer = if check(ts, c.pos, TokenKind::Var) {
            parse_var_declaration(ts, c.step())
        } else {
            parse_expression_statement(ts, c)
        };
        if initializer.result is Err {
            initializer.failure()
        } else {
            Parse::ok(Some(initializer.result->Ok_0), initializer.cursor)
        }
    }
}

/// The loop that a `for` with the given clauses and body stands for:
/// `{ initializer; while (condition) { body; increment; } }`, with `true`
/// for a missing condition, and without the blocks that a missing
/// initializer or increment would leave with one statement.
pub open spec fn desugar_for(
    initializer: Option<StmtView>,
    condition: Option<ExprView>,
    increment: Option<ExprView>,
    body: StmtView,
) -> StmtView {
    let stepped = match increment {
        Some(increment) => StmtView::Block {
            body: seq![body, StmtView::Expression { expr: increment }],
        },
        None => body,
    };
    let looped = StmtView::While {
        condition: match condition {
            Some(condition) => condition,
            None => ExprView::Literal { token: true_token() },
        },
        body: Box::new(stepped),
    };
    match initializer {
        Some(initializer) => StmtView::Block { body: seq![initializer, looped] },
        None => looped,
    }
}

/// The rest of a for statement whose keyword has been read.
pub open spec fn parse_for_statement(ts: Seq<TokenView>, c: Cursor) -> Parse<StmtView>
    decreases ts.len() - c.pos, 43int,
{
    let open = expect(ts, c, TokenKind::LeftParen);
    if open.result is Err {
        open.failure()
    } else {
        let initializer = parse_for_initializer(ts, open.cursor);
        if initializer.result is Err {
            initializer.failure()
        } else {
            let condition = parse_optional_expression(
                ts,
                initializer.cursor.from(ts, c.pos + 1),
                TokenKind::SemiColon,
            );
            if condition.result is Err {
                condition.failure()
            } else {
                let semicolon = expect(
                    ts,
                    condition.cursor.from(ts, c.pos + 1),
                    TokenKind::SemiColon,
                );
                if semicolon.result is Err {
                    semicolon.failure()
                } else {
                    let increment = parse_optional_expression(
                        ts,
                        semicolon.cursor,
                        TokenKind::RightParen,
                    );
                    if increment.result is Err {
                        increment.failure()
                    } else {
                        let close = expect(
                            ts,
                            increment.cursor.from(ts, c.pos + 1),
                            TokenKind::RightParen,
                        );
                        if close.result is Err {
                            close.failure()
                        } else {
                            let body = parse_statement(ts, close.cursor);
                            if body.result is Err {
                                body
                            } else {
                                Parse::ok(
                                    desugar_for(
                                        initializer.result->Ok_0,
                                        condition.result->Ok_0,
                                        increment.result->Ok_0,
                                        body.result->Ok_0,
                                    ),
                                    body.cursor,
                                )
                            }
                        }
                    }
                }
            }
        }
    }
}

/// statement -> ifStmt | forStmt | whileStmt | returnStmt | block | exprStmt
pub open spec fn parse_statement(ts: Seq<TokenView>, c: Cursor) -> Parse<StmtView>
    decreases ts.len() - c.pos, 44int,
{
    if check(ts, c.pos, TokenKind::If) {
        parse_if_statement(ts, c.step())
    } else if check(ts, c.pos, TokenKind::For) {
        parse_for_statement(ts, c.step())
    } else if check(ts, c.pos, TokenKind::While) {
        parse_while_statement(ts, c.step())
    } else if check(ts, c.pos, TokenKind::Return) {
        parse_return_statement(ts, c.step(), ts[c.pos])
    } else if check(ts, c.pos, TokenKind::LeftBrace) {
        let block = parse_block_statement(ts, c.step());
        if block.result is Err {
            block.failure()
        } else {
            Parse::ok(StmtView::Block { body: block.result->Ok_0 }, block.cursor)
        }
    } else {
        parse_expression_statement(ts, c)
    }
}

/// The parameters that follow the parameters `params`: each comma brings
/// one more. From the 256th on, each is reported at the `(` of the list.
pub open spec fn parse_params_tail(
    ts: Seq<TokenView>,
    c: Cursor,
    params: Seq<TokenView>,
    left_paren: TokenView,
) -> Parse<Seq<TokenView>>
    decreases ts.len() - c.pos,
{
    if check(ts, c.pos, TokenKind::Comma) {
        let param = expect(ts, c.step(), TokenKind::Identifier);
        if param.result is Err {
            param.failure()
        } else {
            let params = params.push(param.result->Ok_0);
            let after = if params.len() > MAX_ARGUMENTS {
                param.cursor.report(ParseErrorView::TooManyFunctionArguments(left_paren))
            } else {
                param.cursor
            };
            parse_params_tail(ts, after, params, left_paren)
        }
    } else {
        Parse::ok(params, c)
    }
}

/// The parameter list of a function whose `(` has been read, up to but
/// without the `)`.
pub open spec fn parse_params(ts: Seq<TokenView>, c: Cursor, left_paren: TokenView) -> Parse<
    Seq<TokenView>,
> {
    if check(ts, c.pos, TokenKind::RightParen) {
        Parse::ok(Seq::empty(), c)
    } else {
        let first = expect(ts, c, TokenKind::Identifier);
        if first.result is Err {
            first.failure()
        } else {
            parse_params_tail(ts, first.cursor, seq![first.result->Ok_0], left_paren)
        }
    }
}

/// The rest of a function declaration whose `fun` has been read.
pub open spec fn parse_function_declaration(ts: Seq<TokenView>, c: Cursor) -> Parse<StmtView>
    decreases ts.len() - c.pos, 41int,
{
    let name = expect(ts, c, TokenKind::Identifier);
    if name.result is Err {
        name.failure()
    } else {
        let left_paren = expect(ts, name.cursor, TokenKind::LeftParen);
        if left_paren.result is Err {
            left_paren.failure()
        } else {
            let params = parse_params(ts, left_paren.cursor, left_paren.result->Ok_0);
            if params.result is Err {
                params.failure()
            } else {
                let right_paren = expect(
                    ts,
                    params.cursor.from(ts, c.pos + 1),
                    TokenKind::RightParen,
                );
                if right_paren.result is Err {
                    right_paren.failure()
                } else {
                    let left_brace = expect(ts, right_paren.cursor, TokenKind::LeftBrace);
                    if left_brace.result is Err {
                        left_brace.failure()
                    } else {
                        let body = parse_block_statement(ts, left_brace.cursor);
                        if body.result is Err {
                            body.failure()
                        } else {
                            Parse::ok(
                                StmtView::FunctionDeclaration {
                                    name: name.result->Ok_0,
                                    params: params.result->Ok_0,
                                    body: body.result->Ok_0,
                                },
                                body.cursor,
                            )
                        }
                    }
                }
            }
        }
    }
}

/// declaration -> funDecl | varDecl | statement
pub open spec fn parse_declaration(ts: Seq<TokenView>, c: Cursor) -> Parse<StmtView>
    decreases ts.len() - c.pos, 45int,
{
    if check(ts, c.pos, TokenKind::Fun) {
        parse_function_declaration(ts, c.step())
    } else if check(ts, c.pos, TokenKind::Var) {
        parse_var_declaration(ts, c.step())
    } else {
        parse_statement(ts, c)
    }
}

/// One declaration. Where it fails, its error is reported, the parser
/// synchronizes, and there is no statement.
pub open spec fn parse_item(ts: Seq<TokenView>, c: Cursor) -> Item
    decreases ts.len() - c.pos, 46int,
{
    let declaration = parse_declaration(ts, c);
    match declaration.result {
        Ok(stmt) => Item { stmt: Some(stmt), cursor: declaration.cursor },
        Err(error) => Item {
            stmt: None,
            cursor: declaration.cursor.report(error).at(
                synchronize(ts, declaration.cursor.pos),
            ),
        },
    }
}

/// The declarations of a block that follow the statements `body`, up to but
/// without the `}`.
pub open spec fn parse_block_items(ts: Seq<TokenView>, c: Cursor, body: Seq<StmtView>) -> Program
    decreases ts.len() - c.pos, 47int,
{
    if !at_end(ts, c.pos) && !check(ts, c.pos, TokenKind::RightBrace) {
        let item = parse_item(ts, c);
        parse_block_items(ts, item.cursor.from(ts, c.pos + 1), body + option_seq(item.stmt))
    } else {
        Program { statements: body, cursor: c }
    }
}

/// The rest of a block whose `{` has been read: its declarations and the
/// `}`.
pub open spec fn parse_block_statement(ts: Seq<TokenView>, c: Cursor) -> Parse<Seq<StmtView>>
    decreases ts.len() - c.pos, 48int,
{
    let items = parse_block_items(ts, c, Seq::empty());
    let close = expect(ts, items.cursor, TokenKind::RightBrace);
    if close.result is Err {
        close.failure()
    } else {
        Parse::ok(items.statements, close.cursor)
    }
}

/// The declarations of a program that follow the statements `statements`.
pub open spec fn parse_items(ts: Seq<TokenView>, c: Cursor, statements: Seq<StmtView>) -> Program
    decreases ts.len() - c.pos,
{
    if !at_end(ts, c.pos) {
        let item = parse_item(ts, c);
        parse_items(ts, item.cursor.from(ts, c.pos + 1), statements + option_seq(item.stmt))
    } else {
        Program { statements, cursor: c }
    }
}

/// The statements that the tokens `ts` spell, when read from cursor `c`.
pub open spec fn parse_program(ts: Seq<TokenView>, c: Cursor) -> Program {
    parse_items(ts, c, Seq::empty())
}

/// The sequence of the one value of `o`, or of none.
pub open spec fn option_seq<T>(o: Option<T>) -> Seq<T> {
    match o {
        Some(value) => seq![value],
        None => Seq::empty(),
    }
}

} // verus!
