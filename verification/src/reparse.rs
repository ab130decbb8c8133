//! Reading back what was printed: the parser makes of a printed form of a
//! printable tree that tree, and reports nothing.

use crate::grammar::{ExprView, StmtView};
use crate::printing::{
    closed, has_kind, is_literal, is_statement, level_of, printable_expr, printable_program,
    printable_stmt, spell_args, spell_expr, spell_optional, spell_params, spell_stmt, spell_stmts,
    spells_program, tightness, tightness_of,
};
use crate::syntax::{
    kind_at, option_seq, parse_args_tail, parse_arguments, parse_assignment, parse_binary,
    parse_binary_tail, parse_block_items, parse_block_statement, parse_call, parse_call_tail,
    parse_condition, parse_declaration, parse_expression, parse_expression_statement,
    parse_finish_call, parse_function_declaration, parse_if_statement, parse_item, parse_items,
    parse_operand, parse_optional_expression, parse_params, parse_params_tail, parse_primary,
    parse_program, parse_return_statement, parse_statement, parse_unary, parse_var_declaration,
    parse_while_statement, Cursor, Item, Level, Parse, Program, MAX_ARGUMENTS,
};
use crate::token::{TokenKind, TokenView};
use vstd::prelude::*;

verus! {

/// True where a token of kind `kind` ends an expression that is read at
/// tightness `tier`: it is no operator of that tightness or more, it opens
/// no call, and after an assignment or an operand of one it is no `=`.
pub open spec fn stops(kind: TokenKind, tier: int) -> bool {
    &&& tier <= 8 ==> kind != TokenKind::LeftParen
    &&& level_of(kind) matches Some(level) ==> tightness(level) < tier
    &&& tier <= 0 ==> kind != TokenKind::Equal
}

/// True for the kinds of the tokens that an expression can start with.
pub open spec fn starts_expression(kind: TokenKind) -> bool {
    is_literal(kind) || kind == TokenKind::Identifier || kind == TokenKind::LeftParen || kind
        == TokenKind::Bang || kind == TokenKind::Minus
}

/// A tier has exactly the operators that belong to it.
pub proof fn lemma_level_of(level: Level, kind: TokenKind)
    ensures
        level.spec_has(kind) <==> level_of(kind) == Some(level),
        level.spec_is_logical() <==> tightness(level) <= 2,
        1 <= tightness(level) <= 6,
        match level.spec_below() {
            Some(below) => tightness(below) == tightness(level) + 1,
            None => tightness(level) == 6,
        },
{
}

/// A printed form is not empty and lies within the tokens, and starts with a
/// token that an expression can start with: one of a call or tighter starts
/// with no prefix operator.
pub proof fn lemma_spell_expr(ts: Seq<TokenView>, p: int, expr: ExprView)
    requires
        0 <= p,
        printable_expr(expr),
        spell_expr(ts, p, expr) is Some,
    ensures
        p < spell_expr(ts, p, expr)->0 <= ts.len(),
        starts_expression(kind_at(ts, p)),
        tightness_of(expr) >= 8 ==> kind_at(ts, p) != TokenKind::Bang && kind_at(ts, p)
            != TokenKind::Minus,
    decreases expr, 0nat,
{
    match expr {
        ExprView::Binary { lhs, operator, rhs } => {
            lemma_spell_expr(ts, p, *lhs);
            lemma_spell_expr(ts, spell_expr(ts, p, *lhs)->0 + 1, *rhs);
        },
        ExprView::Logical { lhs, operator, rhs } => {
            lemma_spell_expr(ts, p, *lhs);
            lemma_spell_expr(ts, spell_expr(ts, p, *lhs)->0 + 1, *rhs);
        },
        ExprView::Grouping { expr } => {
            lemma_spell_expr(ts, p + 1, *expr);
        },
        ExprView::Literal { token } => {},
        ExprView::Unary { operator, rhs } => {
            lemma_spell_expr(ts, p + 1, *rhs);
        },
        ExprView::Variable { name } => {},
        ExprView::Assignment { variable, expr } => {
            lemma_spell_expr(ts, p + 2, *expr);
        },
        ExprView::Call { callee, closing_paren, args } => {
            lemma_spell_expr(ts, p, *callee);
            lemma_spell_args(ts, spell_expr(ts, p, *callee)->0 + 1, args, 0);
        },
    }
}

/// The printed form of arguments lies within the tokens.
pub proof fn lemma_spell_args(ts: Seq<TokenView>, p: int, args: Seq<ExprView>, from: int)
    requires
        0 <= p,
        0 <= from,
        forall|i: int| 0 <= i < args.len() ==> printable_expr(#[trigger] args[i]),
        spell_args(ts, p, args, from) is Some,
    ensures
        p <= spell_args(ts, p, args, from)->0,
        from < args.len() ==> p < spell_args(ts, p, args, from)->0 <= ts.len()
            && starts_expression(kind_at(ts, p)),
    decreases args, args.len() - from,
{
    if from < args.len() {
        lemma_spell_expr(ts, p, args[from]);
        if from + 1 < args.len() {
            lemma_spell_args(ts, spell_expr(ts, p, args[from])->0 + 1, args, from + 1);
        }
    }
}

/// A literal or a variable alone, before a token that ends an expression,
/// reads back at every tier of binary operators.
proof fn lemma_atom_at_level(ts: Seq<TokenView>, c: Cursor, level: Level, expr: ExprView)
    requires
        expr is Variable || expr is Literal,
        printable_expr(expr),
        spell_expr(ts, c.pos, expr) == Some(c.pos + 1),
        c.pos >= 0,
        c.pos + 1 < ts.len(),
        stops(kind_at(ts, c.pos + 1), tightness(level)),
    ensures
        parse_binary(ts, c, level) == Parse::ok(expr, c.step()),
    decreases 6 - tightness(level),
{
    lemma_level_of(level, kind_at(ts, c.pos + 1));
    assert(parse_primary(ts, c) == Parse::ok(expr, c.step()));
    assert(parse_call_tail(ts, c.step(), expr) == Parse::ok(expr, c.step()));
    assert(c.step().from(ts, c.pos) == c.step());
    assert(parse_call(ts, c) == Parse::ok(expr, c.step()));
    assert(parse_unary(ts, c) == Parse::ok(expr, c.step()));
    match level.spec_below() {
        Some(below) => {
            lemma_level_of(below, kind_at(ts, c.pos + 1));
            lemma_atom_at_level(ts, c, below, expr);
        },
        None => {},
    }
    assert(parse_operand(ts, c, level) == Parse::ok(expr, c.step()));
    assert(parse_binary_tail(ts, c.step(), level, expr) == Parse::ok(expr, c.step()));
}

/// A printed literal, variable or grouping reads back as a primary
/// expression.
pub proof fn lemma_reparse_primary(ts: Seq<TokenView>, c: Cursor, expr: ExprView, q: int)
    requires
        c.pos >= 0,
        printable_expr(expr),
        tightness_of(expr) == 9,
        spell_expr(ts, c.pos, expr) == Some(q),
    ensures
        parse_primary(ts, c) == Parse::ok(expr, c.at(q)),
    decreases expr, 5nat,
{
    match expr {
        ExprView::Grouping { expr: inner } => {
            let m = spell_expr(ts, c.pos + 1, *inner)->0;
            lemma_reparse_expression(ts, c.step(), *inner, m);
        },
        _ => {},
    }
}

/// A printed expression that binds as tight as a call reads back, at the
/// tier of calls, up to what may follow it: the parser is where it would be
/// had it read the expression and is now looking for one more call.
pub proof fn lemma_reparse_call(ts: Seq<TokenView>, c: Cursor, expr: ExprView, q: int)
    requires
        c.pos >= 0,
        printable_expr(expr),
        tightness_of(expr) >= 8,
        spell_expr(ts, c.pos, expr) == Some(q),
        q < ts.len(),
    ensures
        parse_call(ts, c) == parse_call_tail(ts, c.at(q), expr),
    decreases expr, 10nat,
{
    lemma_spell_expr(ts, c.pos, expr);
    match expr {
        ExprView::Call { callee, closing_paren, args } => {
            let m = spell_expr(ts, c.pos, *callee)->0;
            let n = spell_args(ts, m + 1, args, 0)->0;
            lemma_spell_expr(ts, c.pos, *callee);
            lemma_spell_args(ts, m + 1, args, 0);
            lemma_reparse_call(ts, c, *callee, m);
            lemma_reparse_arguments(ts, c.at(m + 1), args, n);
            assert(c.at(m).step() == c.at(m + 1));
            assert(parse_finish_call(ts, c.at(m + 1), *callee) == Parse::ok(expr, c.at(q)));
            assert(c.at(q).from(ts, m + 1) == c.at(q));
        },
        _ => {
            lemma_reparse_primary(ts, c, expr, q);
            assert(c.at(q).from(ts, c.pos) == c.at(q));
        },
    }
}

/// Printed arguments before a closing parenthesis read back as the
/// arguments of a call.
pub proof fn lemma_reparse_arguments(ts: Seq<TokenView>, c: Cursor, args: Seq<ExprView>, q: int)
    requires
        c.pos >= 0,
        args.len() <= MAX_ARGUMENTS,
        forall|i: int| 0 <= i < args.len() ==> printable_expr(#[trigger] args[i]),
        spell_args(ts, c.pos, args, 0) == Some(q),
        has_kind(ts, q, TokenKind::RightParen),
    ensures
        parse_arguments(ts, c) == Parse::ok(args, c.at(q)),
    decreases args, args.len() + 1,
{
    if args.len() == 0 {
        assert(args =~= Seq::<ExprView>::empty());
    } else {
        lemma_spell_args(ts, c.pos, args, 0);
        let m = spell_expr(ts, c.pos, args[0])->0;
        lemma_spell_expr(ts, c.pos, args[0]);
        if 1 < args.len() {
            lemma_spell_args(ts, m + 1, args, 1);
        }
        lemma_reparse_expression(ts, c, args[0], m);
        assert(c.at(m).from(ts, c.pos) == c.at(m));
        assert(seq![args[0]] =~= args.subrange(0, 1));
        lemma_reparse_more_arguments(ts, c.at(m), args, 1, q);
    }
}

/// Printed arguments read back one after the other: after `done` of them
/// the parser goes on to read the rest.
pub proof fn lemma_reparse_more_arguments(
    ts: Seq<TokenView>,
    c: Cursor,
    args: Seq<ExprView>,
    done: int,
    q: int,
)
    requires
        c.pos >= 0,
        args.len() <= MAX_ARGUMENTS,
        forall|i: int| 0 <= i < args.len() ==> printable_expr(#[trigger] args[i]),
        1 <= done <= args.len(),
        has_kind(ts, q, TokenKind::RightParen),
        if done < args.len() {
            has_kind(ts, c.pos, TokenKind::Comma) && spell_args(ts, c.pos + 1, args, done) == Some(
                q,
            )
        } else {
            c.pos == q
        },
    ensures
        parse_args_tail(ts, c, args.subrange(0, done)) == Parse::ok(args, c.at(q)),
    decreases args, args.len() - done,
{
    if done < args.len() {
        lemma_spell_args(ts, c.pos + 1, args, done);
        let m = spell_expr(ts, c.pos + 1, args[done])->0;
        lemma_spell_expr(ts, c.pos + 1, args[done]);
        if done + 1 < args.len() {
            lemma_spell_args(ts, m + 1, args, done + 1);
        }
        lemma_reparse_expression(ts, c.step(), args[done], m);
        assert(c.step().at(m) == c.at(m));
        assert(c.at(m).from(ts, c.pos + 1) == c.at(m));
        assert(args.subrange(0, done).push(args[done]) =~= args.subrange(0, done + 1));
        lemma_reparse_more_arguments(ts, c.at(m), args, done + 1, q);
        assert(c.at(m).at(q) == c.at(q));
    } else {
        assert(args.subrange(0, done) =~= args);
        assert(c.at(q) == c);
    }
}

/// A printed expression that binds as tight as a prefix operator reads back
/// as a unary expression, before a token that opens no call.
pub proof fn lemma_reparse_unary(ts: Seq<TokenView>, c: Cursor, expr: ExprView, q: int)
    requires
        c.pos >= 0,
        printable_expr(expr),
        tightness_of(expr) >= 7,
        spell_expr(ts, c.pos, expr) == Some(q),
        q < ts.len(),
        stops(kind_at(ts, q), 7),
    ensures
        parse_unary(ts, c) == Parse::ok(expr, c.at(q)),
    decreases expr, 20nat,
{
    lemma_spell_expr(ts, c.pos, expr);
    match expr {
        ExprView::Unary { operator, rhs } => {
            lemma_reparse_unary(ts, c.step(), *rhs, q);
            assert(c.step().at(q) == c.at(q));
        },
        _ => {
            lemma_reparse_call(ts, c, expr, q);
        },
    }
}

/// A printed operand of a tier reads back as one, before a token that ends
/// it.
pub proof fn lemma_reparse_operand(
    ts: Seq<TokenView>,
    c: Cursor,
    level: Level,
    expr: ExprView,
    q: int,
)
    requires
        c.pos >= 0,
        printable_expr(expr),
        tightness_of(expr) > tightness(level),
        spell_expr(ts, c.pos, expr) == Some(q),
        q < ts.len(),
        stops(kind_at(ts, q), tightness(level) + 1),
    ensures
        parse_operand(ts, c, level) == Parse::ok(expr, c.at(q)),
    decreases expr, (93 - 10 * tightness(level)) as nat,
{
    lemma_level_of(level, kind_at(ts, q));
    match level.spec_below() {
        Some(below) => {
            lemma_reparse_binary(ts, c, below, expr, q);
        },
        None => {
            lemma_reparse_unary(ts, c, expr, q);
        },
    }
}

/// A printed expression of a tier reads back, at that tier, up to what may
/// follow it: the parser is where it would be had it read the expression
/// and is now looking for one more operator of the tier.
pub proof fn lemma_reparse_binary_chain(
    ts: Seq<TokenView>,
    c: Cursor,
    level: Level,
    expr: ExprView,
    q: int,
)
    requires
        c.pos >= 0,
        printable_expr(expr),
        tightness_of(expr) >= tightness(level),
        spell_expr(ts, c.pos, expr) == Some(q),
        q < ts.len(),
        stops(kind_at(ts, q), tightness(level) + 1),
    ensures
        parse_binary(ts, c, level) == parse_binary_tail(ts, c.at(q), level, expr),
    decreases expr, (94 - 10 * tightness(level)) as nat,
{
    lemma_spell_expr(ts, c.pos, expr);
    lemma_level_of(level, kind_at(ts, q));
    if tightness_of(expr) > tightness(level) {
        lemma_reparse_operand(ts, c, level, expr, q);
        assert(c.at(q).from(ts, c.pos) == c.at(q));
    } else {
        let (lhs, operator, rhs) = match expr {
            ExprView::Binary { lhs, operator, rhs } => (*lhs, operator, *rhs),
            ExprView::Logical { lhs, operator, rhs } => (*lhs, operator, *rhs),
            _ => (expr, arbitrary(), expr),
        };
        assert(expr is Binary || expr is Logical);
        let m = spell_expr(ts, c.pos, lhs)->0;
        lemma_level_of(level, operator.kind);
        lemma_spell_expr(ts, c.pos, lhs);
        lemma_spell_expr(ts, m + 1, rhs);
        lemma_reparse_binary_chain(ts, c, level, lhs, m);
        lemma_reparse_operand(ts, c.at(m + 1), level, rhs, q);
        assert(c.at(m).step() == c.at(m + 1));
        assert(c.at(m + 1).at(q) == c.at(q));
        assert(c.at(q).from(ts, m + 1) == c.at(q));
        assert(level.combine(lhs, ts[m], rhs) == expr);
        assert(parse_binary_tail(ts, c.at(m), level, lhs) == parse_binary_tail(
            ts,
            c.at(q),
            level,
            expr,
        ));
    }
}

/// A printed expression of a tier reads back as one, before a token that
/// ends it.
pub proof fn lemma_reparse_binary(
    ts: Seq<TokenView>,
    c: Cursor,
    level: Level,
    expr: ExprView,
    q: int,
)
    requires
        c.pos >= 0,
        printable_expr(expr),
        tightness_of(expr) >= tightness(level),
        spell_expr(ts, c.pos, expr) == Some(q),
        q < ts.len(),
        stops(kind_at(ts, q), tightness(level)),
    ensures
        parse_binary(ts, c, level) == Parse::ok(expr, c.at(q)),
    decreases expr, (95 - 10 * tightness(level)) as nat,
{
    lemma_level_of(level, kind_at(ts, q));
    lemma_reparse_binary_chain(ts, c, level, expr, q);
}

/// A printed expression reads back as it is, before a token that ends it.
pub proof fn lemma_reparse_expression(ts: Seq<TokenView>, c: Cursor, expr: ExprView, q: int)
    requires
        c.pos >= 0,
        printable_expr(expr),
        spell_expr(ts, c.pos, expr) == Some(q),
        q < ts.len(),
        stops(kind_at(ts, q), 0),
    ensures
        parse_expression(ts, c) == Parse::ok(expr, c.at(q)),
    decreases expr, 100nat,
{
    lemma_spell_expr(ts, c.pos, expr);
    match expr {
        ExprView::Assignment { variable, expr: value } => {
            let target = ExprView::Variable { name: variable };
            lemma_spell_expr(ts, c.pos + 2, *value);
            lemma_atom_at_level(ts, c, Level::Or, target);
            lemma_reparse_expression(ts, c.at(c.pos + 2), *value, q);
            assert(c.step().from(ts, c.pos) == c.step());
            assert(c.step().step() == c.at(c.pos + 2));
            assert(c.at(c.pos + 2).at(q) == c.at(q));
            assert(parse_assignment(ts, c.at(c.pos + 2)) == Parse::ok(*value, c.at(q)));
        },
        _ => {
            lemma_reparse_binary(ts, c, Level::Or, expr, q);
            assert(c.at(q).from(ts, c.pos) == c.at(q));
        },
    }
}

/// True for the kinds of the tokens that a declaration can start with.
pub open spec fn starts_declaration(kind: TokenKind) -> bool {
    starts_expression(kind) || kind == TokenKind::Var || kind == TokenKind::Fun || kind
        == TokenKind::If || kind == TokenKind::While || kind == TokenKind::Return || kind
        == TokenKind::LeftBrace
}

/// The printed form of a statement is not empty and lies within the tokens,
/// and starts with a token that a declaration can start with: that of a
/// statement with neither `var` nor `fun`.
pub proof fn lemma_spell_stmt(ts: Seq<TokenView>, p: int, stmt: StmtView)
    requires
        0 <= p,
        printable_stmt(stmt),
        spell_stmt(ts, p, stmt) is Some,
    ensures
        p < spell_stmt(ts, p, stmt)->0 <= ts.len(),
        starts_declaration(kind_at(ts, p)),
        is_statement(stmt) ==> kind_at(ts, p) != TokenKind::Var && kind_at(ts, p)
            != TokenKind::Fun,
        stmt is Expression <==> starts_expression(kind_at(ts, p)),
    decreases stmt, 0nat,
{
    match stmt {
        StmtView::VariableDeclaration { name, initializer } => {
            if let Some(expr) = initializer {
                lemma_spell_expr(ts, p + 3, expr);
            }
        },
        StmtView::Expression { expr } => {
            lemma_spell_expr(ts, p, expr);
        },
        StmtView::While { condition, body } => {
            lemma_spell_expr(ts, p + 2, condition);
            lemma_spell_stmt(ts, spell_expr(ts, p + 2, condition)->0 + 1, *body);
        },
        StmtView::FunctionDeclaration { name, params, body } => {
            lemma_spell_params(ts, p + 3, params, 0);
            lemma_spell_stmts(ts, spell_params(ts, p + 3, params, 0)->0 + 2, body, 0);
        },
        StmtView::Block { body } => {
            lemma_spell_stmts(ts, p + 1, body, 0);
        },
        StmtView::If { condition, then_branch, else_branch } => {
            lemma_spell_expr(ts, p + 2, condition);
            let m = spell_expr(ts, p + 2, condition)->0;
            lemma_spell_stmt(ts, m + 1, *then_branch);
            if let Some(branch) = else_branch {
                lemma_spell_stmt(ts, spell_stmt(ts, m + 1, *then_branch)->0 + 1, *branch);
            }
        },
        StmtView::Return { return_keyword, value } => {
            if let Some(expr) = value {
                lemma_spell_expr(ts, p + 1, expr);
            }
        },
    }
}

/// The printed form of parameters lies within the tokens.
pub proof fn lemma_spell_params(ts: Seq<TokenView>, p: int, params: Seq<TokenView>, from: int)
    requires
        0 <= p,
        0 <= from,
        spell_params(ts, p, params, from) is Some,
    ensures
        p <= spell_params(ts, p, params, from)->0,
        from < params.len() ==> p < spell_params(ts, p, params, from)->0 <= ts.len(),
    decreases params.len() - from,
{
    if from + 1 < params.len() {
        lemma_spell_params(ts, p + 2, params, from + 1);
    }
}

/// The printed form of statements lies within the tokens.
pub proof fn lemma_spell_stmts(ts: Seq<TokenView>, p: int, stmts: Seq<StmtView>, from: int)
    requires
        0 <= p,
        0 <= from,
        forall|i: int| 0 <= i < stmts.len() ==> printable_stmt(#[trigger] stmts[i]),
        spell_stmts(ts, p, stmts, from) is Some,
    ensures
        p <= spell_stmts(ts, p, stmts, from)->0,
        from < stmts.len() ==> p < spell_stmts(ts, p, stmts, from)->0 <= ts.len()
            && starts_declaration(kind_at(ts, p)),
    decreases stmts, stmts.len() - from,
{
    if from < stmts.len() {
        lemma_spell_stmt(ts, p, stmts[from]);
        lemma_spell_stmts(ts, spell_stmt(ts, p, stmts[from])->0, stmts, from + 1);
    }
}

/// A printed expression before a token of kind `end` reads back as the
/// expression that may be missing there, and so does nothing before such a
/// token.
proof fn lemma_reparse_optional(
    ts: Seq<TokenView>,
    c: Cursor,
    expr: Option<ExprView>,
    end: TokenKind,
    q: int,
)
    requires
        c.pos >= 0,
        expr matches Some(expr) ==> printable_expr(expr),
        spell_optional(ts, c.pos, expr) == Some(q),
        has_kind(ts, q, end),
        end == TokenKind::SemiColon || end == TokenKind::RightParen,
    ensures
        parse_optional_expression(ts, c, end) == Parse::ok(expr, c.at(q)),
{
    match expr {
        Some(expr) => {
            lemma_spell_expr(ts, c.pos, expr);
            lemma_reparse_expression(ts, c, expr, q);
        },
        None => {
            assert(c.at(q) == c);
        },
    }
}

/// Printed parameters before a closing parenthesis read back as the
/// parameters of a function.
proof fn lemma_reparse_params(
    ts: Seq<TokenView>,
    c: Cursor,
    params: Seq<TokenView>,
    left_paren: TokenView,
    q: int,
)
    requires
        c.pos >= 0,
        params.len() <= MAX_ARGUMENTS,
        forall|i: int|
            0 <= i < params.len() ==> (#[trigger] params[i]).kind == TokenKind::Identifier,
        spell_params(ts, c.pos, params, 0) == Some(q),
        has_kind(ts, q, TokenKind::RightParen),
    ensures
        parse_params(ts, c, left_paren) == Parse::ok(params, c.at(q)),
{
    if params.len() == 0 {
        assert(params =~= Seq::<TokenView>::empty());
        assert(c.at(q) == c);
    } else {
        assert(params[0].kind == TokenKind::Identifier);
        assert(seq![params[0]] =~= params.subrange(0, 1));
        lemma_reparse_more_params(ts, c.step(), params, left_paren, 1, q);
        assert(c.step().at(q) == c.at(q));
    }
}

/// Printed parameters read back one after the other: after `done` of them
/// the parser goes on to read the rest.
proof fn lemma_reparse_more_params(
    ts: Seq<TokenView>,
    c: Cursor,
    params: Seq<TokenView>,
    left_paren: TokenView,
    done: int,
    q: int,
)
    requires
        c.pos >= 0,
        params.len() <= MAX_ARGUMENTS,
        forall|i: int|
            0 <= i < params.len() ==> (#[trigger] params[i]).kind == TokenKind::Identifier,
        1 <= done <= params.len(),
        has_kind(ts, q, TokenKind::RightParen),
        if done < params.len() {
            has_kind(ts, c.pos, TokenKind::Comma) && spell_params(ts, c.pos + 1, params, done)
                == Some(q)
        } else {
            c.pos == q
        },
    ensures
        parse_params_tail(ts, c, params.subrange(0, done), left_paren) == Parse::ok(
            params,
            c.at(q),
        ),
    decreases params.len() - done,
{
    if done < params.len() {
        assert(params[done].kind == TokenKind::Identifier);
        assert(params.subrange(0, done).push(params[done]) =~= params.subrange(0, done + 1));
        assert(c.step().step() == c.at(c.pos + 2));
        lemma_reparse_more_params(ts, c.at(c.pos + 2), params, left_paren, done + 1, q);
        assert(c.at(c.pos + 2).at(q) == c.at(q));
    } else {
        assert(params.subrange(0, done) =~= params);
        assert(c.at(q) == c);
    }
}

/// The condition of a printed `if` or `while` reads back.
proof fn lemma_reparse_condition(ts: Seq<TokenView>, c: Cursor, condition: ExprView, m: int)
    requires
        c.pos >= 0,
        printable_expr(condition),
        has_kind(ts, c.pos, TokenKind::LeftParen),
        spell_expr(ts, c.pos + 1, condition) == Some(m),
        has_kind(ts, m, TokenKind::RightParen),
    ensures
        parse_condition(ts, c) == Parse::ok(condition, c.at(m + 1)),
        c.pos + 1 < m,
{
    lemma_spell_expr(ts, c.pos + 1, condition);
    lemma_reparse_expression(ts, c.step(), condition, m);
    assert(c.step().at(m).step() == c.at(m + 1));
}

/// A printed variable declaration reads back, once its `var` has been read.
proof fn lemma_reparse_var(ts: Seq<TokenView>, c: Cursor, stmt: StmtView, q: int)
    requires
        c.pos >= 0,
        stmt is VariableDeclaration,
        printable_stmt(stmt),
        spell_stmt(ts, c.pos, stmt) == Some(q),
    ensures
        parse_var_declaration(ts, c.step()) == Parse::ok(stmt, c.at(q)),
{
    let p = c.pos;
    match stmt {
        StmtView::VariableDeclaration { name, initializer } => {
            match initializer {
                Some(expr) => {
                    let m = spell_expr(ts, p + 3, expr)->0;
                    lemma_spell_expr(ts, p + 3, expr);
                    lemma_reparse_expression(ts, c.at(p + 3), expr, m);
                    assert(c.step().step().step() == c.at(p + 3));
                    assert(c.at(p + 3).at(m).step() == c.at(q));
                },
                None => {
                    assert(c.step().step().step() == c.at(q));
                },
            }
        },
        _ => {},
    }
}

/// A printed return statement reads back, once its keyword has been read.
proof fn lemma_reparse_return(ts: Seq<TokenView>, c: Cursor, stmt: StmtView, q: int)
    requires
        c.pos >= 0,
        stmt is Return,
        printable_stmt(stmt),
        spell_stmt(ts, c.pos, stmt) == Some(q),
    ensures
        parse_return_statement(ts, c.step(), ts[c.pos]) == Parse::ok(stmt, c.at(q)),
{
    let p = c.pos;
    match stmt {
        StmtView::Return { return_keyword, value } => {
            let m = spell_optional(ts, p + 1, value)->0;
            lemma_reparse_optional(ts, c.step(), value, TokenKind::SemiColon, m);
            assert(c.step().at(m).step() == c.at(q));
        },
        _ => {},
    }
}

/// A printed expression statement reads back.
proof fn lemma_reparse_expression_statement(
    ts: Seq<TokenView>,
    c: Cursor,
    stmt: StmtView,
    q: int,
)
    requires
        c.pos >= 0,
        stmt is Expression,
        printable_stmt(stmt),
        spell_stmt(ts, c.pos, stmt) == Some(q),
    ensures
        parse_expression_statement(ts, c) == Parse::ok(stmt, c.at(q)),
{
    match stmt {
        StmtView::Expression { expr } => {
            let m = spell_expr(ts, c.pos, expr)->0;
            lemma_spell_expr(ts, c.pos, expr);
            lemma_reparse_expression(ts, c, expr, m);
            assert(c.at(m).step() == c.at(q));
        },
        _ => {},
    }
}

/// A printed loop reads back, once its `while` has been read.
proof fn lemma_reparse_while(ts: Seq<TokenView>, c: Cursor, stmt: StmtView, q: int)
    requires
        c.pos >= 0,
        stmt is While,
        printable_stmt(stmt),
        spell_stmt(ts, c.pos, stmt) == Some(q),
        q < ts.len(),
        !closed(stmt) ==> kind_at(ts, q) != TokenKind::Else,
    ensures
        parse_while_statement(ts, c.step()) == Parse::ok(stmt, c.at(q)),
    decreases stmt, 5nat,
{
    let p = c.pos;
    match stmt {
        StmtView::While { condition, body } => {
            let m = spell_expr(ts, p + 2, condition)->0;
            lemma_reparse_condition(ts, c.step(), condition, m);
            lemma_reparse_statement(ts, c.at(m + 1), *body, q);
            assert(c.step().at(m + 1) == c.at(m + 1));
            assert(c.at(m + 1).from(ts, p + 2) == c.at(m + 1));
            assert(c.at(m + 1).at(q) == c.at(q));
        },
        _ => {},
    }
}

/// A printed `if` reads back, once its keyword has been read.
proof fn lemma_reparse_if(ts: Seq<TokenView>, c: Cursor, stmt: StmtView, q: int)
    requires
        c.pos >= 0,
        stmt is If,
        printable_stmt(stmt),
        spell_stmt(ts, c.pos, stmt) == Some(q),
        q < ts.len(),
        !closed(stmt) ==> kind_at(ts, q) != TokenKind::Else,
    ensures
        parse_if_statement(ts, c.step()) == Parse::ok(stmt, c.at(q)),
    decreases stmt, 5nat,
{
    let p = c.pos;
    match stmt {
        StmtView::If { condition, then_branch, else_branch } => {
            let m = spell_expr(ts, p + 2, condition)->0;
            let n = spell_stmt(ts, m + 1, *then_branch)->0;
            lemma_reparse_condition(ts, c.step(), condition, m);
            lemma_spell_stmt(ts, m + 1, *then_branch);
            assert(c.step().at(m + 1) == c.at(m + 1));
            assert(c.at(m + 1).from(ts, p + 2) == c.at(m + 1));
            match else_branch {
                Some(branch) => {
                    lemma_spell_stmt(ts, n + 1, *branch);
                    lemma_reparse_statement(ts, c.at(m + 1), *then_branch, n);
                    lemma_reparse_statement(ts, c.at(n + 1), *branch, q);
                    assert(c.at(m + 1).at(n) == c.at(n));
                    assert(c.at(n).from(ts, p + 2) == c.at(n));
                    assert(c.at(n).step() == c.at(n + 1));
                    assert(c.at(n + 1).at(q) == c.at(q));
                },
                None => {
                    lemma_reparse_statement(ts, c.at(m + 1), *then_branch, q);
                    assert(c.at(m + 1).at(q) == c.at(q));
                    assert(c.at(q).from(ts, p + 2) == c.at(q));
                },
            }
        },
        _ => {},
    }
}

/// A printed function declaration reads back, once its `fun` has been
/// read.
proof fn lemma_reparse_function(ts: Seq<TokenView>, c: Cursor, stmt: StmtView, q: int)
    requires
        c.pos >= 0,
        stmt is FunctionDeclaration,
        printable_stmt(stmt),
        spell_stmt(ts, c.pos, stmt) == Some(q),
    ensures
        parse_function_declaration(ts, c.step()) == Parse::ok(stmt, c.at(q)),
    decreases stmt, 5nat,
{
    let p = c.pos;
    match stmt {
        StmtView::FunctionDeclaration { name, params, body } => {
            let m = spell_params(ts, p + 3, params, 0)->0;
            let n = spell_stmts(ts, m + 2, body, 0)->0;
            lemma_spell_params(ts, p + 3, params, 0);
            lemma_spell_stmts(ts, m + 2, body, 0);
            lemma_reparse_params(ts, c.at(p + 3), params, ts[p + 2], m);
            lemma_reparse_block(ts, c.at(m + 2), body, n);
            assert(c.step().step().step() == c.at(p + 3));
            assert(c.at(p + 3).at(m) == c.at(m));
            assert(c.at(m).from(ts, p + 2) == c.at(m));
            assert(c.at(m).step().step() == c.at(m + 2));
            assert(c.at(m + 2).at(n + 1) == c.at(q));
        },
        _ => {},
    }
}

/// A printed statement reads back as it is, before a token that it cannot
/// take for itself: an `else` may follow only a statement that is closed.
pub proof fn lemma_reparse_statement(ts: Seq<TokenView>, c: Cursor, stmt: StmtView, q: int)
    requires
        c.pos >= 0,
        printable_stmt(stmt),
        spell_stmt(ts, c.pos, stmt) == Some(q),
        q < ts.len(),
        !closed(stmt) ==> kind_at(ts, q) != TokenKind::Else,
    ensures
        parse_declaration(ts, c) == Parse::ok(stmt, c.at(q)),
        is_statement(stmt) ==> parse_statement(ts, c) == Parse::ok(stmt, c.at(q)),
    decreases stmt, 10nat,
{
    let p = c.pos;
    lemma_spell_stmt(ts, p, stmt);
    match stmt {
        StmtView::VariableDeclaration { .. } => {
            lemma_reparse_var(ts, c, stmt, q);
        },
        StmtView::Expression { .. } => {
            lemma_reparse_expression_statement(ts, c, stmt, q);
        },
        StmtView::While { .. } => {
            lemma_reparse_while(ts, c, stmt, q);
        },
        StmtView::FunctionDeclaration { .. } => {
            lemma_reparse_function(ts, c, stmt, q);
        },
        StmtView::Block { body } => {
            let n = spell_stmts(ts, p + 1, body, 0)->0;
            lemma_spell_stmts(ts, p + 1, body, 0);
            lemma_reparse_block(ts, c.step(), body, n);
            assert(c.step().at(n + 1) == c.at(q));
        },
        StmtView::If { .. } => {
            lemma_reparse_if(ts, c, stmt, q);
        },
        StmtView::Return { .. } => {
            lemma_reparse_return(ts, c, stmt, q);
        },
    }
}

/// Printed statements before a closing brace read back as the rest of a
/// block whose opening brace has been read.
pub proof fn lemma_reparse_block(ts: Seq<TokenView>, c: Cursor, body: Seq<StmtView>, n: int)
    requires
        c.pos >= 0,
        forall|i: int| 0 <= i < body.len() ==> printable_stmt(#[trigger] body[i]),
        spell_stmts(ts, c.pos, body, 0) == Some(n),
        has_kind(ts, n, TokenKind::RightBrace),
    ensures
        parse_block_statement(ts, c) == Parse::ok(body, c.at(n + 1)),
    decreases body, body.len() + 1,
{
    assert(body.subrange(0, 0) =~= Seq::<StmtView>::empty());
    lemma_reparse_block_items(ts, c, body, 0, n);
    assert(c.at(n).step() == c.at(n + 1));
}

/// Printed statements before a closing brace read back one after the
/// other: after `done` of them the parser goes on to read the rest.
pub proof fn lemma_reparse_block_items(
    ts: Seq<TokenView>,
    c: Cursor,
    body: Seq<StmtView>,
    done: int,
    n: int,
)
    requires
        c.pos >= 0,
        forall|i: int| 0 <= i < body.len() ==> printable_stmt(#[trigger] body[i]),
        0 <= done <= body.len(),
        spell_stmts(ts, c.pos, body, done) == Some(n),
        has_kind(ts, n, TokenKind::RightBrace),
    ensures
        parse_block_items(ts, c, body.subrange(0, done)) == (Program {
            statements: body,
            cursor: c.at(n),
        }),
    decreases body, body.len() - done,
{
    if done < body.len() {
        let m = spell_stmt(ts, c.pos, body[done])->0;
        lemma_spell_stmt(ts, c.pos, body[done]);
        lemma_spell_stmts(ts, m, body, done + 1);
        lemma_reparse_statement(ts, c, body[done], m);
        assert(parse_item(ts, c) == (Item { stmt: Some(body[done]), cursor: c.at(m) }));
        assert(c.at(m).from(ts, c.pos + 1) == c.at(m));
        assert(body.subrange(0, done) + option_seq(Some(body[done])) =~= body.subrange(
            0,
            done + 1,
        ));
        lemma_reparse_block_items(ts, c.at(m), body, done + 1, n);
        assert(c.at(m).at(n) == c.at(n));
    } else {
        assert(body.subrange(0, done) =~= body);
        assert(c.at(n) == c);
    }
}

/// Printed statements before the end of the input read back one after the
/// other: after `done` of them the parser goes on to read the rest.
pub proof fn lemma_reparse_items(
    ts: Seq<TokenView>,
    c: Cursor,
    stmts: Seq<StmtView>,
    done: int,
    n: int,
)
    requires
        c.pos >= 0,
        printable_program(stmts),
        0 <= done <= stmts.len(),
        spell_stmts(ts, c.pos, stmts, done) == Some(n),
        has_kind(ts, n, TokenKind::Eof),
    ensures
        parse_items(ts, c, stmts.subrange(0, done)) == (Program {
            statements: stmts,
            cursor: c.at(n),
        }),
    decreases stmts.len() - done,
{
    if done < stmts.len() {
        let m = spell_stmt(ts, c.pos, stmts[done])->0;
        lemma_spell_stmt(ts, c.pos, stmts[done]);
        lemma_spell_stmts(ts, m, stmts, done + 1);
        lemma_reparse_statement(ts, c, stmts[done], m);
        assert(parse_item(ts, c) == (Item { stmt: Some(stmts[done]), cursor: c.at(m) }));
        assert(c.at(m).from(ts, c.pos + 1) == c.at(m));
        assert(stmts.subrange(0, done) + option_seq(Some(stmts[done])) =~= stmts.subrange(
            0,
            done + 1,
        ));
        lemma_reparse_items(ts, c.at(m), stmts, done + 1, n);
        assert(c.at(m).at(n) == c.at(n));
    } else {
        assert(stmts.subrange(0, done) =~= stmts);
        assert(c.at(n) == c);
    }
}

/// Reading back: the parser makes of a printed form of a printable program
/// that program. It reads all of the printed form and reports nothing.
pub proof fn lemma_reparse_program(ts: Seq<TokenView>, c: Cursor, stmts: Seq<StmtView>)
    requires
        c.pos == 0,
        printable_program(stmts),
        spells_program(ts, stmts),
    ensures
        parse_program(ts, c) == (Program { statements: stmts, cursor: c.at(ts.len() - 1) }),
{
    assert(stmts.subrange(0, 0) =~= Seq::<StmtView>::empty());
    lemma_reparse_items(ts, c, stmts, 0, ts.len() - 1);
}

} // verus!
