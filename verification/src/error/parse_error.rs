use crate::token::{Token, TokenKind, TokenView};
use crate::error::scan_error::{error_heading, heading};
use vstd::prelude::*;
use vstd::string::*;

verus! {

/// The token at which a parse error was found.
#[derive(Debug, PartialEq)]
pub struct ParseErrorCtx {
    pub token: Token,
}

impl ParseErrorCtx {
    /// The context of an error at `token`.
    pub fn from(token: Token) -> (ctx: ParseErrorCtx)
        ensures
            ctx.token == token,
    {
        Self { token }
    }
}

impl Clone for ParseErrorCtx {
    fn clone(&self) -> (copy: Self)
        ensures
            copy == *self,
    {
        ParseErrorCtx { token: self.token.clone() }
    }
}

/// All errors that parsing can meet.
#[derive(Debug, PartialEq)]
pub enum ParseError {
    /// The left side of an `=` is not a variable.
    InvalidAssignmentTarget(ParseErrorCtx),
    /// No expression starts at the token.
    ExpectedExpression(ParseErrorCtx),
    /// The grammar asks for a token of the given kind here.
    ExpectedDifferentToken(ParseErrorCtx, TokenKind),
    /// A parameter or argument list grew to 255 entries or more.
    TooManyFunctionArguments(ParseErrorCtx),
}

/// A parse error with the view of its token.
pub enum ParseErrorView {
    InvalidAssignmentTarget(TokenView),
    ExpectedExpression(TokenView),
    ExpectedDifferentToken(TokenView, TokenKind),
    TooManyFunctionArguments(TokenView),
}

impl View for ParseError {
    type V = ParseErrorView;

    open spec fn view(&self) -> ParseErrorView {
        match self {
            ParseError::InvalidAssignmentTarget(ctx) => ParseErrorView::InvalidAssignmentTarget(
                ctx.token@,
            ),
            ParseError::ExpectedExpression(ctx) => ParseErrorView::ExpectedExpression(ctx.token@),
            ParseError::ExpectedDifferentToken(ctx, kind) => ParseErrorView::ExpectedDifferentToken(
                ctx.token@,
                *kind,
            ),
            ParseError::TooManyFunctionArguments(ctx) => ParseErrorView::TooManyFunctionArguments(
                ctx.token@,
            ),
        }
    }
}

/// Where a diagnostic says its error is: at the end of the input, or at a
/// lexeme in quotes.
pub open spec fn location(token: TokenView) -> Seq<char> {
    if token.kind == TokenKind::Eof {
        " at end"@
    } else {
        " at '"@ + token.lexeme + "'"@
    }
}

impl ParseErrorView {
    /// What went wrong, in words.
    pub open spec fn message(self) -> Seq<char> {
        match self {
            ParseErrorView::InvalidAssignmentTarget(_) => "Invalid Assignment Target"@,
            ParseErrorView::ExpectedExpression(_) => "Expected Expression"@,
            ParseErrorView::ExpectedDifferentToken(_, kind) => "Expected '"@ + kind.text() + "'"@,
            ParseErrorView::TooManyFunctionArguments(_) =>
                "Cannot have more that 255 arguments for a function (Seriously chill)"@,
        }
    }

    /// The diagnostic as it is shown: `[line N] Error at 'LEXEME': MESSAGE`,
    /// with `at end` for the end of the input.
    pub open spec fn text(self) -> Seq<char> {
        error_heading(self.token().line) + location(self.token()) + ": "@ + self.message()
    }

    /// The token the error was found at.
    pub open spec fn token(self) -> TokenView {
        match self {
            ParseErrorView::InvalidAssignmentTarget(token) => token,
            ParseErrorView::ExpectedExpression(token) => token,
            ParseErrorView::ExpectedDifferentToken(token, _) => token,
            ParseErrorView::TooManyFunctionArguments(token) => token,
        }
    }
}

impl ParseError {
    /// The token the error was found at.
    pub fn token(&self) -> (token: &Token)
        ensures
            token@ == self@.token(),
    {
        match self {
            ParseError::InvalidAssignmentTarget(ctx) => &ctx.token,
            ParseError::ExpectedExpression(ctx) => &ctx.token,
            ParseError::ExpectedDifferentToken(ctx, _) => &ctx.token,
            ParseError::TooManyFunctionArguments(ctx) => &ctx.token,
        }
    }

    /// The diagnostic as it is shown: `[line N] Error at 'LEXEME': MESSAGE`,
    /// with `at end` for the end of the input.
    pub fn to_string(&self) -> (text: String)
        ensures
            text@ == self@.text(),
    {
        let token = self.token();
        let mut text = heading(token.line);
        if token.token_type.kind() == TokenKind::Eof {
            text.append(" at end");
        } else {
            text.append(" at '");
            text.append(token.lexeme.as_str());
            text.append("'");
        }
        text.append(": ");
        let ghost before = text@;
        match self {
            ParseError::InvalidAssignmentTarget(_) => text.append("Invalid Assignment Target"),
            ParseError::ExpectedExpression(_) => text.append("Expected Expression"),
            ParseError::ExpectedDifferentToken(_, kind) => {
                text.append("Expected '");
                text.append(kind.to_str());
                text.append("'");
                assert(text@ =~= before + ("Expected '"@ + kind.text() + "'"@));
            },
            ParseError::TooManyFunctionArguments(_) => text.append(
                "Cannot have more that 255 arguments for a function (Seriously chill)",
            ),
        }
        text
    }
}

impl Clone for ParseError {
    fn clone(&self) -> (copy: Self)
        ensures
            copy == *self,
    {
        match self {
            ParseError::InvalidAssignmentTarget(ctx) => ParseError::InvalidAssignmentTarget(
                ctx.clone(),
            ),
            ParseError::ExpectedExpression(ctx) => ParseError::ExpectedExpression(ctx.clone()),
            ParseError::ExpectedDifferentToken(ctx, kind) => ParseError::ExpectedDifferentToken(
                ctx.clone(),
                *kind,
            ),
            ParseError::TooManyFunctionArguments(ctx) => ParseError::TooManyFunctionArguments(
                ctx.clone(),
            ),
        }
    }
}

} // verus!
