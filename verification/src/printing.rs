//! What it means for a token sequence to be a printed form of a syntax tree,
//! and which trees have one that reads back as the tree.

use crate::grammar::{ExprView, StmtView};
use crate::syntax::{Level, MAX_ARGUMENTS};
use crate::token::{TokenKind, TokenView};
use vstd::prelude::*;

verus! {

/// True where a token of kind `kind` stands at position `p`.
pub open spec fn has_kind(ts: Seq<TokenView>, p: int, kind: TokenKind) -> bool {
    0 <= p < ts.len() && ts[p].kind == kind
}

/// True where the token `token` stands at position `p`.
pub open spec fn has_token(ts: Seq<TokenView>, p: int, token: TokenView) -> bool {
    0 <= p < ts.len() && ts[p] == token
}

/// The tier whose operator a token of kind `kind` is.
pub open spec fn level_of(kind: TokenKind) -> Option<Level> {
    match kind {
        TokenKind::Slash => Some(Level::Factor),
        TokenKind::Star => Some(Level::Factor),
        TokenKind::Plus => Some(Level::Term),
        TokenKind::Minus => Some(Level::Term),
        TokenKind::GreaterEqual => Some(Level::Comparison),
        TokenKind::Greater => Some(Level::Comparison),
        TokenKind::LessEqual => Some(Level::Comparison),
        TokenKind::Less => Some(Level::Comparison),
        TokenKind::BangEqual => Some(Level::Equality),
        TokenKind::EqualEqual => Some(Level::Equality),
        TokenKind::And => Some(Level::And),
        TokenKind::Or => Some(Level::Or),
        _ => None,
    }
}

/// How tight a tier binds: 1 for `or` up to 6 for factors.
pub open spec fn tightness(level: Level) -> int {
    6 - level.rank()
}

/// How tight an expression binds at its top: 0 for an assignment, 1 to 6 for
/// the tiers of binary operators, 7 for a prefix operator, 8 for a call and
/// 9 for a literal, a variable and a grouping.
pub open spec fn tightness_of(expr: ExprView) -> int {
    match expr {
        ExprView::Assignment { .. } => 0,
        ExprView::Logical { operator, .. } => match level_of(operator.kind) {
            Some(level) => tightness(level),
            None => 0,
        },
        ExprView::Binary { operator, .. } => match level_of(operator.kind) {
            Some(level) => tightness(level),
            None => 0,
        },
        ExprView::Unary { .. } => 7,
        ExprView::Call { .. } => 8,
        _ => 9,
    }
}

/// True for the kinds of the tokens that are literals.
pub open spec fn is_literal(kind: TokenKind) -> bool {
    kind == TokenKind::True || kind == TokenKind::False || kind == TokenKind::Nil || kind
        == TokenKind::String || kind == TokenKind::Number
}

/// True for the expressions that the grammar can spell: every token is of
/// the kind its place asks for, an operand binds at least as tight as its
/// operator needs (the right one tighter, for the operators associate to the
/// left), and a call has at most 255 arguments.
pub open spec fn printable_expr(expr: ExprView) -> bool
    decreases expr,
{
    match expr {
        ExprView::Binary { lhs, operator, rhs } => {
            &&& level_of(operator.kind) matches Some(level)
            &&& !level.spec_is_logical()
            &&& printable_expr(*lhs)
            &&& tightness_of(*lhs) >= tightness(level)
            &&& printable_expr(*rhs)
            &&& tightness_of(*rhs) > tightness(level)
        },
        ExprView::Logical { lhs, operator, rhs } => {
            &&& level_of(operator.kind) matches Some(level)
            &&& level.spec_is_logical()
            &&& printable_expr(*lhs)
            &&& tightness_of(*lhs) >= tightness(level)
            &&& printable_expr(*rhs)
            &&& tightness_of(*rhs) > tightness(level)
        },
        ExprView::Grouping { expr } => printable_expr(*expr),
        ExprView::Literal { token } => is_literal(token.kind),
        ExprView::Unary { operator, rhs } => {
            &&& operator.kind == TokenKind::Bang || operator.kind == TokenKind::Minus
            &&& printable_expr(*rhs)
            &&& tightness_of(*rhs) >= 7
        },
        ExprView::Variable { name } => name.kind == TokenKind::Identifier,
        ExprView::Assignment { variable, expr } => {
            &&& variable.kind == TokenKind::Identifier
            &&& printable_expr(*expr)
        },
        ExprView::Call { callee, closing_paren, args } => {
            &&& printable_expr(*callee)
            &&& tightness_of(*callee) >= 8
            &&& closing_paren.kind == TokenKind::RightParen
            &&& args.len() <= MAX_ARGUMENTS
            &&& forall|i: int| 0 <= i < args.len() ==> printable_expr(#[trigger] args[i])
        },
    }
}

/// Where the printed form of `expr` ends that starts at position `p` of
/// `ts`, if one starts there. The tokens that the tree keeps have to stand
/// there themselves; of the punctuation in between only the kind counts.
pub open spec fn spell_expr(ts: Seq<TokenView>, p: int, expr: ExprView) -> Option<int>
    decreases expr, 0nat,
{
    match expr {
        ExprView::Binary { lhs, operator, rhs } => match spell_expr(ts, p, *lhs) {
            Some(m) => if has_token(ts, m, operator) {
                spell_expr(ts, m + 1, *rhs)
            } else {
                None
            },
            None => None,
        },
        ExprView::Logical { lhs, operator, rhs } => match spell_expr(ts, p, *lhs) {
            Some(m) => if has_token(ts, m, operator) {
                spell_expr(ts, m + 1, *rhs)
            } else {
                None
            },
            None => None,
        },
        ExprView::Grouping { expr } => if has_kind(ts, p, TokenKind::LeftParen) {
            match spell_expr(ts, p + 1, *expr) {
                Some(m) => if has_kind(ts, m, TokenKind::RightParen) {
                    Some(m + 1)
                } else {
                    None
                },
                None => None,
            }
        } else {
            None
        },
        ExprView::Literal { token } => if has_token(ts, p, token) {
            Some(p + 1)
        } else {
            None
        },
        ExprView::Unary { operator, rhs } => if has_token(ts, p, operator) {
            spell_expr(ts, p + 1, *rhs)
        } else {
            None
        },
        ExprView::Variable { name } => if has_token(ts, p, name) {
            Some(p + 1)
        } else {
            None
        },
        ExprView::Assignment { variable, expr } => if has_token(ts, p, variable) && has_kind(
            ts,
            p + 1,
            TokenKind::Equal,
        ) {
            spell_expr(ts, p + 2, *expr)
        } else {
            None
        },
        ExprView::Call { callee, closing_paren, args } => match spell_expr(ts, p, *callee) {
            Some(m) => if has_kind(ts, m, TokenKind::LeftParen) {
                match spell_args(ts, m + 1, args, 0) {
                    Some(n) => if has_token(ts, n, closing_paren) {
                        Some(n + 1)
                    } else {
                        None
                    },
                    None => None,
                }
            } else {
                None
            },
            None => None,
        },
    }
}

/// Where the printed form of the arguments from number `from` on ends that
/// starts at position `p`: the arguments in order, with a comma between
/// two.
pub open spec fn spell_args(ts: Seq<TokenView>, p: int, args: Seq<ExprView>, from: int) -> Option<
    int,
>
    decreases args, args.len() - from,
{
    if from < 0 || from >= args.len() {
        Some(p)
    } else {
        match spell_expr(ts, p, args[from]) {
            Some(m) => if from + 1 < args.len() {
                if has_kind(ts, m, TokenKind::Comma) {
                    spell_args(ts, m + 1, args, from + 1)
                } else {
                    None
                }
            } else {
                Some(m)
            },
            None => None,
        }
    }
}

/// True for the statements that may stand where the grammar asks for a
/// statement: every one but the declarations of variables and functions.
pub open spec fn is_statement(stmt: StmtView) -> bool {
    !(stmt is VariableDeclaration) && !(stmt is FunctionDeclaration)
}

/// True for the statements that an `else` cannot follow: those that do not
/// end in an `if` without `else`.
pub open spec fn closed(stmt: StmtView) -> bool
    decreases stmt,
{
    match stmt {
        StmtView::If { else_branch, .. } => match else_branch {
            Some(branch) => closed(*branch),
            None => false,
        },
        StmtView::While { body, .. } => closed(*body),
        _ => true,
    }
}

/// True for the statements that the grammar can spell: their expressions
/// are printable, their tokens of the kind their place asks for, the bodies
/// of loops and the branches of an `if` no declarations, a function has at
/// most 255 parameters, and where an `if` has an `else`, its first branch
/// cannot take that `else` for itself.
pub open spec fn printable_stmt(stmt: StmtView) -> bool
    decreases stmt,
{
    match stmt {
        StmtView::VariableDeclaration { name, initializer } => {
            &&& name.kind == TokenKind::Identifier
            &&& initializer matches Some(expr) ==> printable_expr(expr)
        },
        StmtView::Expression { expr } => printable_expr(expr),
        StmtView::While { condition, body } => {
            &&& printable_expr(condition)
            &&& is_statement(*body)
            &&& printable_stmt(*body)
        },
        StmtView::FunctionDeclaration { name, params, body } => {
            &&& name.kind == TokenKind::Identifier
            &&& params.len() <= MAX_ARGUMENTS
            &&& forall|i: int|
                0 <= i < params.len() ==> (#[trigger] params[i]).kind == TokenKind::Identifier
            &&& forall|i: int| 0 <= i < body.len() ==> printable_stmt(#[trigger] body[i])
        },
        StmtView::Block { body } => forall|i: int|
            0 <= i < body.len() ==> printable_stmt(#[trigger] body[i]),
        StmtView::If { condition, then_branch, else_branch } => {
            &&& printable_expr(condition)
            &&& is_statement(*then_branch)
            &&& printable_stmt(*then_branch)
            &&& match else_branch {
                Some(branch) => is_statement(*branch) && printable_stmt(*branch) && closed(
                    *then_branch,
                ),
                None => true,
            }
        },
        StmtView::Return { return_keyword, value } => {
            &&& return_keyword.kind == TokenKind::Return
            &&& value matches Some(expr) ==> printable_expr(expr)
        },
    }
}

/// Where the printed form of an optional expression ends that starts at
/// position `p`: that of the expression, or nothing.
pub open spec fn spell_optional(ts: Seq<TokenView>, p: int, expr: Option<ExprView>) -> Option<
    int,
> {
    match expr {
        Some(expr) => spell_expr(ts, p, expr),
        None => Some(p),
    }
}

/// Where the printed form of the parameters from number `from` on ends that
/// starts at position `p`: the names in order, with a comma between two.
pub open spec fn spell_params(ts: Seq<TokenView>, p: int, params: Seq<TokenView>, from: int)
    -> Option<int>
    decreases params.len() - from,
{
    if from < 0 || from >= params.len() {
        Some(p)
    } else if !has_token(ts, p, params[from]) {
        None
    } else if from + 1 < params.len() {
        if has_kind(ts, p + 1, TokenKind::Comma) {
            spell_params(ts, p + 2, params, from + 1)
        } else {
            None
        }
    } else {
        Some(p + 1)
    }
}

/// Where the printed form of `stmt` ends that starts at position `p` of
/// `ts`, if one starts there.
pub open spec fn spell_stmt(ts: Seq<TokenView>, p: int, stmt: StmtView) -> Option<int>
    decreases stmt, 0nat,
{
    match stmt {
        StmtView::VariableDeclaration { name, initializer } => if has_kind(ts, p, TokenKind::Var)
            && has_token(ts, p + 1, name) {
            match initializer {
                Some(expr) => if has_kind(ts, p + 2, TokenKind::Equal) {
                    match spell_expr(ts, p + 3, expr) {
                        Some(m) => if has_kind(ts, m, TokenKind::SemiColon) {
                            Some(m + 1)
                        } else {
                            None
                        },
                        None => None,
                    }
                } else {
                    None
                },
                None => if has_kind(ts, p + 2, TokenKind::SemiColon) {
                    Some(p + 3)
                } else {
                    None
                },
            }
        } else {
            None
        },
        StmtView::Expression { expr } => match spell_expr(ts, p, expr) {
            Some(m) => if has_kind(ts, m, TokenKind::SemiColon) {
                Some(m + 1)
            } else {
                None
            },
            None => None,
        },
        StmtView::While { condition, body } => if has_kind(ts, p, TokenKind::While) && has_kind(
            ts,
            p + 1,
            TokenKind::LeftParen,
        ) {
            match spell_expr(ts, p + 2, condition) {
                Some(m) => if has_kind(ts, m, TokenKind::RightParen) {
                    spell_stmt(ts, m + 1, *body)
                } else {
                    None
                },
                None => None,
            }
        } else {
            None
        },
        StmtView::FunctionDeclaration { name, params, body } => if has_kind(
            ts,
            p,
            TokenKind::Fun,
        ) && has_token(ts, p + 1, name) && has_kind(ts, p + 2, TokenKind::LeftParen) {
            match spell_params(ts, p + 3, params, 0) {
                Some(m) => if has_kind(ts, m, TokenKind::RightParen) && has_kind(
                    ts,
                    m + 1,
                    TokenKind::LeftBrace,
                ) {
                    match spell_stmts(ts, m + 2, body, 0) {
                        Some(n) => if has_kind(ts, n, TokenKind::RightBrace) {
                            Some(n + 1)
                        } else {
                            None
                        },
                        None => None,
                    }
                } else {
                    None
                },
                None => None,
            }
        } else {
            None
        },
        StmtView::Block { body } => if has_kind(ts, p, TokenKind::LeftBrace) {
            match spell_stmts(ts, p + 1, body, 0) {
                Some(n) => if has_kind(ts, n, TokenKind::RightBrace) {
                    Some(n + 1)
                } else {
                    None
                },
                None => None,
            }
        } else {
            None
        },
        StmtView::If { condition, then_branch, else_branch } => if has_kind(ts, p, TokenKind::If)
            && has_kind(ts, p + 1, TokenKind::LeftParen) {
            match spell_expr(ts, p + 2, condition) {
                Some(m) => if has_kind(ts, m, TokenKind::RightParen) {
                    match spell_stmt(ts, m + 1, *then_branch) {
                        Some(n) => match else_branch {
                            Some(branch) => if has_kind(ts, n, TokenKind::Else) {
                                spell_stmt(ts, n + 1, *branch)
                            } else {
                                None
                            },
                            None => Some(n),
                        },
                        None => None,
                    }
                } else {
                    None
                },
                None => None,
            }
        } else {
            None
        },
        StmtView::Return { return_keyword, value } => if has_token(ts, p, return_keyword) {
            match spell_optional(ts, p + 1, value) {
                Some(m) => if has_kind(ts, m, TokenKind::SemiColon) {
                    Some(m + 1)
                } else {
                    None
                },
                None => None,
            }
        } else {
            None
        },
    }
}

/// Where the printed form of the statements from number `from` on ends that
/// starts at position `p`: the statements one after the other.
pub open spec fn spell_stmts(ts: Seq<TokenView>, p: int, stmts: Seq<StmtView>, from: int)
    -> Option<int>
    decreases stmts, stmts.len() - from,
{
    if from < 0 || from >= stmts.len() {
        Some(p)
    } else {
        match spell_stmt(ts, p, stmts[from]) {
            Some(m) => spell_stmts(ts, m, stmts, from + 1),
            None => None,
        }
    }
}

/// True for the programs that the grammar can spell: those of printable
/// statements.
pub open spec fn printable_program(stmts: Seq<StmtView>) -> bool {
    forall|i: int| 0 <= i < stmts.len() ==> printable_stmt(#[trigger] stmts[i])
}

/// True where `ts` is a printed form of the program `stmts`: its
/// statements one after the other, and then the end of the input.
pub open spec fn spells_program(ts: Seq<TokenView>, stmts: Seq<StmtView>) -> bool {
    ts.len() > 0 && spell_stmts(ts, 0, stmts, 0) == Some(ts.len() - 1) && has_kind(
        ts,
        ts.len() - 1,
        TokenKind::Eof,
    )
}

} // verus!
