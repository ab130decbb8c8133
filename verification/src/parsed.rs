//! What the parser gives when it reports nothing: a printable tree.

use crate::grammar::{ExprView, StmtView};
use crate::printing::{
    closed, is_statement, printable_expr, printable_program, printable_stmt, tightness,
    tightness_of,
};
use crate::reparse::lemma_level_of;
use crate::syntax::{
    advance, at_end, boundary, check, desugar_for, expect, kind_at, option_seq, parse_args_tail,
    parse_arguments, parse_assignment, parse_binary, parse_binary_tail, parse_block_items,
    parse_block_statement, parse_call, parse_call_tail, parse_condition, parse_declaration,
    parse_expression, parse_expression_statement, parse_finish_call, parse_for_initializer,
    parse_for_statement, parse_function_declaration, parse_if_statement, parse_item, parse_items,
    parse_operand, parse_optional_expression, parse_params, parse_params_tail, parse_primary,
    parse_program, parse_return_statement, parse_statement, parse_unary, parse_var_declaration,
    parse_while_statement, true_token, well_formed, Cursor, Level, Parse, Program, MAX_ARGUMENTS,
};
use crate::token::{TokenKind, TokenView};
use vstd::prelude::*;

verus! {

/// True where the parser can read from cursor `c`: the tokens end with
/// `Eof` and the cursor stands at one of them.
pub open spec fn readable(ts: Seq<TokenView>, c: Cursor) -> bool {
    well_formed(ts) && 0 <= c.pos < ts.len()
}

/// True where cursor `after` can be what parsing from cursor `before` leads
/// to: the parser has not gone back nor past the last token, and has taken
/// back no report.
pub open spec fn onward(ts: Seq<TokenView>, before: Cursor, after: Cursor) -> bool {
    before.pos <= after.pos < ts.len() && before.reports.len() <= after.reports.len()
}

/// True where nothing was reported between the two cursors.
pub open spec fn quiet(before: Cursor, after: Cursor) -> bool {
    before.reports.len() == after.reports.len()
}

/// What holds of the outcome `r` of parsing an expression from `c` at
/// tightness `tier`: the parser went onward, past at least one token where
/// it gave an expression, and where it reported nothing the expression is
/// printable and binds at least that tight.
pub open spec fn sound_expr(ts: Seq<TokenView>, c: Cursor, r: Parse<ExprView>, tier: int) -> bool {
    &&& onward(ts, c, r.cursor)
    &&& r.result is Ok ==> c.pos < r.cursor.pos
    &&& r.result is Ok && quiet(c, r.cursor) ==> printable_expr(r.result->Ok_0) && tightness_of(
        r.result->Ok_0,
    ) >= tier
}

/// What holds of the outcome `r` of going on from an expression that was
/// read before cursor `c`: the parser went onward, and where it reported
/// nothing the expression it gives is printable and binds at least as tight
/// as `tier`.
pub open spec fn sound_tail(ts: Seq<TokenView>, c: Cursor, r: Parse<ExprView>, tier: int) -> bool {
    &&& onward(ts, c, r.cursor)
    &&& r.result is Ok && quiet(c, r.cursor) ==> printable_expr(r.result->Ok_0) && tightness_of(
        r.result->Ok_0,
    ) >= tier
}

/// Reading one token leads onward, and reports nothing.
pub proof fn lemma_expect(ts: Seq<TokenView>, c: Cursor, kind: TokenKind)
    requires
        readable(ts, c),
    ensures
        onward(ts, c, expect(ts, c, kind).cursor),
        quiet(c, expect(ts, c, kind).cursor),
        expect(ts, c, kind).result is Ok ==> expect(ts, c, kind).cursor == c.step() && kind_at(
            ts,
            c.pos,
        ) == kind && expect(ts, c, kind).result->Ok_0 == ts[c.pos] && kind != TokenKind::Eof,
        expect(ts, c, kind).result is Err ==> expect(ts, c, kind).cursor == c,
{
}

/// What the parser gives as a primary expression.
pub proof fn lemma_primary(ts: Seq<TokenView>, c: Cursor)
    requires
        readable(ts, c),
    ensures
        sound_expr(ts, c, parse_primary(ts, c), 9),
    decreases ts.len() - c.pos, 1int,
{
    if check(ts, c.pos, TokenKind::Identifier) {
    } else if check(ts, c.pos, TokenKind::LeftParen) {
        lemma_expression(ts, c.step());
        let inner = parse_expression(ts, c.step());
        if inner.result is Ok {
            lemma_expect(ts, inner.cursor, TokenKind::RightParen);
        }
    } else {
    }
}

/// What the parser gives as the calls that follow a callee.
pub proof fn lemma_call_tail(ts: Seq<TokenView>, c: Cursor, callee: ExprView)
    requires
        readable(ts, c),
        printable_expr(callee),
        tightness_of(callee) >= 8,
    ensures
        sound_tail(ts, c, parse_call_tail(ts, c, callee), 8),
    decreases ts.len() - c.pos, 2int,
{
    if check(ts, c.pos, TokenKind::LeftParen) {
        lemma_finish_call(ts, c.step(), callee);
        let call = parse_finish_call(ts, c.step(), callee);
        if call.result is Ok {
            assert(call.cursor.from(ts, c.pos + 1) == call.cursor);
            if quiet(c, call.cursor) {
                lemma_call_tail(ts, call.cursor, call.result->Ok_0);
            } else {
                lemma_call_tail_onward(ts, call.cursor, call.result->Ok_0);
            }
        }
    }
}

/// The calls that follow a callee lead onward, whatever the callee is.
pub proof fn lemma_call_tail_onward(ts: Seq<TokenView>, c: Cursor, callee: ExprView)
    requires
        readable(ts, c),
    ensures
        onward(ts, c, parse_call_tail(ts, c, callee).cursor),
    decreases ts.len() - c.pos, 2int,
{
    if check(ts, c.pos, TokenKind::LeftParen) {
        lemma_finish_call_onward(ts, c.step(), callee);
        let call = parse_finish_call(ts, c.step(), callee);
        if call.result is Ok {
            assert(call.cursor.from(ts, c.pos + 1) == call.cursor);
            lemma_call_tail_onward(ts, call.cursor, call.result->Ok_0);
        }
    }
}

/// The rest of a call leads onward, whatever the callee is.
pub proof fn lemma_finish_call_onward(ts: Seq<TokenView>, c: Cursor, callee: ExprView)
    requires
        readable(ts, c),
    ensures
        onward(ts, c, parse_finish_call(ts, c, callee).cursor),
        parse_finish_call(ts, c, callee).result is Ok ==> c.pos < parse_finish_call(
            ts,
            c,
            callee,
        ).cursor.pos,
    decreases ts.len() - c.pos, 34int,
{
    lemma_arguments(ts, c);
    let args = parse_arguments(ts, c);
    if args.result is Ok {
        lemma_expect(ts, args.cursor, TokenKind::RightParen);
    }
}

/// What the parser gives as a call or a primary expression.
pub proof fn lemma_call(ts: Seq<TokenView>, c: Cursor)
    requires
        readable(ts, c),
    ensures
        sound_expr(ts, c, parse_call(ts, c), 8),
    decreases ts.len() - c.pos, 3int,
{
    lemma_primary(ts, c);
    let callee = parse_primary(ts, c);
    if callee.result is Ok {
        assert(callee.cursor.from(ts, c.pos) == callee.cursor);
        if quiet(c, callee.cursor) {
            lemma_call_tail(ts, callee.cursor, callee.result->Ok_0);
        } else {
            lemma_call_tail_onward(ts, callee.cursor, callee.result->Ok_0);
        }
    }
}

/// What the parser gives as a unary expression.
pub proof fn lemma_unary(ts: Seq<TokenView>, c: Cursor)
    requires
        readable(ts, c),
    ensures
        sound_expr(ts, c, parse_unary(ts, c), 7),
    decreases ts.len() - c.pos, 4int,
{
    if check(ts, c.pos, TokenKind::Bang) || check(ts, c.pos, TokenKind::Minus) {
        lemma_unary(ts, c.step());
    } else {
        lemma_call(ts, c);
    }
}

/// What the parser gives as an operand of a tier.
pub proof fn lemma_operand(ts: Seq<TokenView>, c: Cursor, level: Level)
    requires
        readable(ts, c),
    ensures
        sound_expr(ts, c, parse_operand(ts, c, level), tightness(level) + 1),
    decreases ts.len() - c.pos, 5 + 3 * level.rank(),
{
    lemma_level_of(level, TokenKind::Eof);
    match level.spec_below() {
        Some(below) => {
            lemma_binary(ts, c, below);
        },
        None => {
            lemma_unary(ts, c);
        },
    }
}

/// What the parser gives as the operators of a tier that follow an operand.
pub proof fn lemma_binary_tail(ts: Seq<TokenView>, c: Cursor, level: Level, lhs: ExprView)
    requires
        readable(ts, c),
        printable_expr(lhs),
        tightness_of(lhs) >= tightness(level),
    ensures
        sound_tail(ts, c, parse_binary_tail(ts, c, level, lhs), tightness(level)),
    decreases ts.len() - c.pos, 6 + 3 * level.rank(),
{
    if !at_end(ts, c.pos) && level.spec_has(kind_at(ts, c.pos)) {
        lemma_level_of(level, kind_at(ts, c.pos));
        lemma_operand(ts, c.step(), level);
        let right = parse_operand(ts, c.step(), level);
        if right.result is Ok {
            assert(right.cursor.from(ts, c.pos + 1) == right.cursor);
            let joined = level.combine(lhs, ts[c.pos], right.result->Ok_0);
            if quiet(c, right.cursor) {
                assert(printable_expr(joined) && tightness_of(joined) == tightness(level));
                lemma_binary_tail(ts, right.cursor, level, joined);
            } else {
                lemma_binary_tail_onward(ts, right.cursor, level, joined);
            }
        }
    }
}

/// The operators of a tier that follow an operand lead onward, whatever the
/// operand is.
pub proof fn lemma_binary_tail_onward(ts: Seq<TokenView>, c: Cursor, level: Level, lhs: ExprView)
    requires
        readable(ts, c),
    ensures
        onward(ts, c, parse_binary_tail(ts, c, level, lhs).cursor),
    decreases ts.len() - c.pos, 6 + 3 * level.rank(),
{
    if !at_end(ts, c.pos) && level.spec_has(kind_at(ts, c.pos)) {
        lemma_operand(ts, c.step(), level);
        let right = parse_operand(ts, c.step(), level);
        if right.result is Ok {
            assert(right.cursor.from(ts, c.pos + 1) == right.cursor);
            lemma_binary_tail_onward(
                ts,
                right.cursor,
                level,
                level.combine(lhs, ts[c.pos], right.result->Ok_0),
            );
        }
    }
}

/// What the parser gives as an expression of a tier.
pub proof fn lemma_binary(ts: Seq<TokenView>, c: Cursor, level: Level)
    requires
        readable(ts, c),
    ensures
        sound_expr(ts, c, parse_binary(ts, c, level), tightness(level)),
    decreases ts.len() - c.pos, 7 + 3 * level.rank(),
{
    lemma_operand(ts, c, level);
    let left = parse_operand(ts, c, level);
    if left.result is Ok {
        assert(left.cursor.from(ts, c.pos) == left.cursor);
        if quiet(c, left.cursor) {
            lemma_binary_tail(ts, left.cursor, level, left.result->Ok_0);
        } else {
            lemma_binary_tail_onward(ts, left.cursor, level, left.result->Ok_0);
        }
    }
}

/// What the parser gives as an assignment or an expression of a tier.
pub proof fn lemma_assignment(ts: Seq<TokenView>, c: Cursor)
    requires
        readable(ts, c),
    ensures
        sound_expr(ts, c, parse_assignment(ts, c), 0),
    decreases ts.len() - c.pos, 30int,
{
    lemma_binary(ts, c, Level::Or);
    let target = parse_binary(ts, c, Level::Or);
    if target.result is Ok {
        assert(target.cursor.from(ts, c.pos) == target.cursor);
        if check(ts, target.cursor.pos, TokenKind::Equal) {
            lemma_assignment(ts, target.cursor.step());
        }
    }
}

/// What the parser gives as an expression.
pub proof fn lemma_expression(ts: Seq<TokenView>, c: Cursor)
    requires
        readable(ts, c),
    ensures
        sound_expr(ts, c, parse_expression(ts, c), 0),
    decreases ts.len() - c.pos, 31int,
{
    lemma_assignment(ts, c);
}

/// What holds of the outcome `r` of parsing arguments: the parser went
/// onward, and where it reported nothing there are at most 255 arguments, all
/// printable.
pub open spec fn sound_args(ts: Seq<TokenView>, c: Cursor, r: Parse<Seq<ExprView>>) -> bool {
    &&& onward(ts, c, r.cursor)
    &&& r.result is Ok && quiet(c, r.cursor) ==> r.result->Ok_0.len() <= MAX_ARGUMENTS && forall|
        i: int,
    | 0 <= i < r.result->Ok_0.len() ==> printable_expr(#[trigger] r.result->Ok_0[i])
}

/// What the parser gives as the arguments that follow the first ones.
pub proof fn lemma_args_tail(ts: Seq<TokenView>, c: Cursor, args: Seq<ExprView>)
    requires
        readable(ts, c),
    ensures
        onward(ts, c, parse_args_tail(ts, c, args).cursor),
        args.len() <= MAX_ARGUMENTS && (forall|i: int|
            0 <= i < args.len() ==> printable_expr(#[trigger] args[i])) ==> sound_args(
            ts,
            c,
            parse_args_tail(ts, c, args),
        ),
    decreases ts.len() - c.pos, 32int,
{
    if check(ts, c.pos, TokenKind::Comma) {
        let after = if args.len() >= MAX_ARGUMENTS {
            c.step().report(crate::error::parse_error::ParseErrorView::TooManyFunctionArguments(
                ts[c.pos + 1],
            ))
        } else {
            c.step()
        };
        lemma_expression(ts, after);
        let arg = parse_expression(ts, after);
        if arg.result is Ok {
            assert(arg.cursor.from(ts, c.pos + 1) == arg.cursor);
            lemma_args_tail(ts, arg.cursor, args.push(arg.result->Ok_0));
        }
    }
}

/// What the parser gives as the arguments of a call.
pub proof fn lemma_arguments(ts: Seq<TokenView>, c: Cursor)
    requires
        readable(ts, c),
    ensures
        sound_args(ts, c, parse_arguments(ts, c)),
    decreases ts.len() - c.pos, 33int,
{
    if !check(ts, c.pos, TokenKind::RightParen) {
        lemma_expression(ts, c);
        let first = parse_expression(ts, c);
        if first.result is Ok {
            assert(first.cursor.from(ts, c.pos) == first.cursor);
            lemma_args_tail(ts, first.cursor, seq![first.result->Ok_0]);
        }
    }
}

/// What the parser gives as a call, after the opening parenthesis.
pub proof fn lemma_finish_call(ts: Seq<TokenView>, c: Cursor, callee: ExprView)
    requires
        readable(ts, c),
        printable_expr(callee),
        tightness_of(callee) >= 8,
    ensures
        sound_expr(ts, c, parse_finish_call(ts, c, callee), 8),
    decreases ts.len() - c.pos, 34int,
{
    lemma_arguments(ts, c);
    let args = parse_arguments(ts, c);
    if args.result is Ok {
        lemma_expect(ts, args.cursor, TokenKind::RightParen);
    }
}

/// What holds of the outcome `r` of parsing a statement from `c`: the
/// parser went onward, past at least one token where it gave a statement,
/// and where it reported nothing the statement is printable, and no `else`
/// follows it that it could have taken for itself. `statement` says that no
/// declaration is let through.
pub open spec fn sound_stmt(ts: Seq<TokenView>, c: Cursor, r: Parse<StmtView>, statement: bool)
    -> bool {
    &&& onward(ts, c, r.cursor)
    &&& r.result is Ok ==> c.pos < r.cursor.pos
    &&& r.result is Ok && quiet(c, r.cursor) ==> {
        &&& printable_stmt(r.result->Ok_0)
        &&& statement ==> is_statement(r.result->Ok_0)
        &&& !closed(r.result->Ok_0) ==> kind_at(ts, r.cursor.pos) != TokenKind::Else
    }
}

/// What the parser gives as an expression that may be missing.
pub proof fn lemma_optional_expression(ts: Seq<TokenView>, c: Cursor, end: TokenKind)
    requires
        readable(ts, c),
    ensures
        onward(ts, c, parse_optional_expression(ts, c, end).cursor),
        parse_optional_expression(ts, c, end).result is Ok && quiet(
            c,
            parse_optional_expression(ts, c, end).cursor,
        ) ==> (parse_optional_expression(ts, c, end).result->Ok_0 matches Some(expr)
            ==> printable_expr(expr)),
    decreases ts.len() - c.pos, 40int,
{
    if !check(ts, c.pos, end) {
        lemma_expression(ts, c);
    }
}

/// What the parser gives as the condition of an `if` or a `while`.
pub proof fn lemma_condition(ts: Seq<TokenView>, c: Cursor)
    requires
        readable(ts, c),
    ensures
        sound_expr(ts, c, parse_condition(ts, c), 0),
    decreases ts.len() - c.pos, 40int,
{
    lemma_expect(ts, c, TokenKind::LeftParen);
    let open = expect(ts, c, TokenKind::LeftParen);
    if open.result is Ok {
        lemma_expression(ts, open.cursor);
        let condition = parse_expression(ts, open.cursor);
        if condition.result is Ok {
            lemma_expect(ts, condition.cursor, TokenKind::RightParen);
        }
    }
}

/// What the parser gives as an expression statement.
pub proof fn lemma_expression_statement(ts: Seq<TokenView>, c: Cursor)
    requires
        readable(ts, c),
    ensures
        sound_stmt(ts, c, parse_expression_statement(ts, c), true),
    decreases ts.len() - c.pos, 40int,
{
    lemma_expression(ts, c);
    let expr = parse_expression(ts, c);
    if expr.result is Ok {
        lemma_expect(ts, expr.cursor, TokenKind::SemiColon);
    }
}

/// What the parser gives as a return statement, after its keyword.
pub proof fn lemma_return_statement(ts: Seq<TokenView>, c: Cursor, keyword: TokenView)
    requires
        readable(ts, c),
        keyword.kind == TokenKind::Return,
    ensures
        sound_stmt(ts, c, parse_return_statement(ts, c, keyword), true),
    decreases ts.len() - c.pos, 41int,
{
    lemma_optional_expression(ts, c, TokenKind::SemiColon);
    let value = parse_optional_expression(ts, c, TokenKind::SemiColon);
    if value.result is Ok {
        lemma_expect(ts, value.cursor, TokenKind::SemiColon);
    }
}

/// What the parser gives as a variable declaration, after its keyword.
pub proof fn lemma_var_declaration(ts: Seq<TokenView>, c: Cursor)
    requires
        readable(ts, c),
    ensures
        sound_stmt(ts, c, parse_var_declaration(ts, c), false),
        parse_var_declaration(ts, c).result is Ok ==> parse_var_declaration(
            ts,
            c,
        ).result->Ok_0 is VariableDeclaration,
    decreases ts.len() - c.pos, 41int,
{
    lemma_expect(ts, c, TokenKind::Identifier);
    let name = expect(ts, c, TokenKind::Identifier);
    if name.result is Ok {
        if check(ts, name.cursor.pos, TokenKind::Equal) {
            lemma_expression(ts, name.cursor.step());
            let value = parse_expression(ts, name.cursor.step());
            if value.result is Ok {
                lemma_expect(ts, value.cursor, TokenKind::SemiColon);
            }
        } else {
            lemma_expect(ts, name.cursor, TokenKind::SemiColon);
        }
    }
}

/// What the parser gives as a loop, after its keyword.
pub proof fn lemma_while_statement(ts: Seq<TokenView>, c: Cursor)
    requires
        readable(ts, c),
    ensures
        sound_stmt(ts, c, parse_while_statement(ts, c), true),
    decreases ts.len() - c.pos, 41int,
{
    lemma_condition(ts, c);
    let condition = parse_condition(ts, c);
    if condition.result is Ok {
        assert(condition.cursor.from(ts, c.pos + 1) == condition.cursor);
        lemma_statement(ts, condition.cursor);
    }
}

/// What the parser gives as an `if`, after its keyword.
#[verifier::rlimit(50)]
pub proof fn lemma_if_statement(ts: Seq<TokenView>, c: Cursor)
    requires
        readable(ts, c),
    ensures
        sound_stmt(ts, c, parse_if_statement(ts, c), true),
    decreases ts.len() - c.pos, 41int,
{
    lemma_condition(ts, c);
    let condition = parse_condition(ts, c);
    if condition.result is Ok {
        assert(condition.cursor.from(ts, c.pos + 1) == condition.cursor);
        lemma_statement(ts, condition.cursor);
        let then_branch = parse_statement(ts, condition.cursor);
        if then_branch.result is Ok {
            assert(then_branch.cursor.from(ts, c.pos + 1) == then_branch.cursor);
            if check(ts, then_branch.cursor.pos, TokenKind::Else) {
                lemma_statement(ts, then_branch.cursor.step());
                let else_branch = parse_statement(ts, then_branch.cursor.step());
                if else_branch.result is Ok && quiet(c, else_branch.cursor) {
                    let stmt = StmtView::If {
                        condition: condition.result->Ok_0,
                        then_branch: Box::new(then_branch.result->Ok_0),
                        else_branch: Some(Box::new(else_branch.result->Ok_0)),
                    };
                    assert(parse_if_statement(ts, c) == Parse::ok(stmt, else_branch.cursor));
                    assert(closed(then_branch.result->Ok_0));
                    assert(printable_stmt(stmt));
                    assert(closed(stmt) == closed(else_branch.result->Ok_0));
                }
            } else if quiet(c, then_branch.cursor) {
                let stmt = StmtView::If {
                    condition: condition.result->Ok_0,
                    then_branch: Box::new(then_branch.result->Ok_0),
                    else_branch: None,
                };
                assert(parse_if_statement(ts, c) == Parse::ok(stmt, then_branch.cursor));
                assert(printable_stmt(stmt));
            }
        }
    }
}

/// What the parser gives as the first clause of a `for`.
pub proof fn lemma_for_initializer(ts: Seq<TokenView>, c: Cursor)
    requires
        readable(ts, c),
    ensures
        onward(ts, c, parse_for_initializer(ts, c).cursor),
        parse_for_initializer(ts, c).result is Ok ==> c.pos < parse_for_initializer(
            ts,
            c,
        ).cursor.pos,
        parse_for_initializer(ts, c).result is Ok && quiet(
            c,
            parse_for_initializer(ts, c).cursor,
        ) ==> (parse_for_initializer(ts, c).result->Ok_0 matches Some(stmt) ==> printable_stmt(
            stmt,
        )),
    decreases ts.len() - c.pos, 42int,
{
    if check(ts, c.pos, TokenKind::SemiColon) {
    } else if check(ts, c.pos, TokenKind::Var) {
        lemma_var_declaration(ts, c.step());
    } else {
        lemma_expression_statement(ts, c);
    }
}

/// The loop that a `for` stands for is printable where its clauses and its
/// body are, and can take an `else` for itself only where the body can.
pub proof fn lemma_desugar_for(
    initializer: Option<StmtView>,
    condition: Option<ExprView>,
    increment: Option<ExprView>,
    body: StmtView,
)
    requires
        initializer matches Some(stmt) ==> printable_stmt(stmt),
        condition matches Some(expr) ==> printable_expr(expr),
        increment matches Some(expr) ==> printable_expr(expr),
        printable_stmt(body),
        is_statement(body),
    ensures
        printable_stmt(desugar_for(initializer, condition, increment, body)),
        is_statement(desugar_for(initializer, condition, increment, body)),
        !closed(desugar_for(initializer, condition, increment, body)) ==> !closed(body),
{
    reveal_with_fuel(closed, 3);
    reveal_with_fuel(printable_stmt, 3);
    let stepped = match increment {
        Some(increment) => StmtView::Block {
            body: seq![body, StmtView::Expression { expr: increment }],
        },
        None => body,
    };
    if let Some(increment) = increment {
        let both = seq![body, StmtView::Expression { expr: increment }];
        assert(both[0] == body && both[1] == (StmtView::Expression { expr: increment }));
        assert forall|i: int| 0 <= i < both.len() implies printable_stmt(#[trigger] both[i]) by {
            if i == 0 {
            } else {
                assert(both[i] == both[1]);
            }
        }
        assert(printable_stmt(StmtView::Block { body: both }));
    }
    assert(printable_stmt(stepped) && is_statement(stepped));
    assert(!closed(stepped) ==> !closed(body));
    let test = match condition {
        Some(condition) => condition,
        None => ExprView::Literal { token: true_token() },
    };
    assert(printable_expr(test));
    let looped = StmtView::While { condition: test, body: Box::new(stepped) };
    assert(printable_stmt(looped));
    assert(!closed(looped) ==> !closed(body));
    if let Some(initializer) = initializer {
        let both = seq![initializer, looped];
        assert(both[0] == initializer && both[1] == looped);
        assert forall|i: int| 0 <= i < both.len() implies printable_stmt(#[trigger] both[i]) by {
            if i == 0 {
            } else {
                assert(both[i] == both[1]);
            }
        }
        assert(printable_stmt(StmtView::Block { body: both }));
    }
}

/// What the parser gives as a `for`, after its keyword.
pub proof fn lemma_for_statement(ts: Seq<TokenView>, c: Cursor)
    requires
        readable(ts, c),
    ensures
        sound_stmt(ts, c, parse_for_statement(ts, c), true),
    decreases ts.len() - c.pos, 43int,
{
    lemma_expect(ts, c, TokenKind::LeftParen);
    let open = expect(ts, c, TokenKind::LeftParen);
    if open.result is Ok {
        lemma_for_initializer(ts, open.cursor);
        let initializer = parse_for_initializer(ts, open.cursor);
        if initializer.result is Ok {
            assert(initializer.cursor.from(ts, c.pos + 1) == initializer.cursor);
            lemma_optional_expression(ts, initializer.cursor, TokenKind::SemiColon);
            let condition = parse_optional_expression(
                ts,
                initializer.cursor,
                TokenKind::SemiColon,
            );
            if condition.result is Ok {
                assert(condition.cursor.from(ts, c.pos + 1) == condition.cursor);
                lemma_expect(ts, condition.cursor, TokenKind::SemiColon);
                let semicolon = expect(ts, condition.cursor, TokenKind::SemiColon);
                if semicolon.result is Ok {
                    lemma_optional_expression(ts, semicolon.cursor, TokenKind::RightParen);
                    let increment = parse_optional_expression(
                        ts,
                        semicolon.cursor,
                        TokenKind::RightParen,
                    );
                    if increment.result is Ok {
                        assert(increment.cursor.from(ts, c.pos + 1) == increment.cursor);
                        lemma_expect(ts, increment.cursor, TokenKind::RightParen);
                        let close = expect(ts, increment.cursor, TokenKind::RightParen);
                        if close.result is Ok {
                            lemma_statement(ts, close.cursor);
                            let body = parse_statement(ts, close.cursor);
                            if body.result is Ok && quiet(c, body.cursor) {
                                lemma_desugar_for(
                                    initializer.result->Ok_0,
                                    condition.result->Ok_0,
                                    increment.result->Ok_0,
                                    body.result->Ok_0,
                                );
                            }
                        }
                    }
                }
            }
        }
    }
}

/// What the parser gives as a statement.
pub proof fn lemma_statement(ts: Seq<TokenView>, c: Cursor)
    requires
        readable(ts, c),
    ensures
        sound_stmt(ts, c, parse_statement(ts, c), true),
    decreases ts.len() - c.pos, 44int,
{
    if check(ts, c.pos, TokenKind::If) {
        lemma_if_statement(ts, c.step());
    } else if check(ts, c.pos, TokenKind::For) {
        lemma_for_statement(ts, c.step());
    } else if check(ts, c.pos, TokenKind::While) {
        lemma_while_statement(ts, c.step());
    } else if check(ts, c.pos, TokenKind::Return) {
        lemma_return_statement(ts, c.step(), ts[c.pos]);
    } else if check(ts, c.pos, TokenKind::LeftBrace) {
        lemma_block_statement(ts, c.step());
    } else {
        lemma_expression_statement(ts, c);
    }
}

/// What holds of the outcome `r` of parsing parameters: the parser went
/// onward, and where it reported nothing there are at most 255 parameters,
/// all identifiers.
pub open spec fn sound_params(ts: Seq<TokenView>, c: Cursor, r: Parse<Seq<TokenView>>) -> bool {
    &&& onward(ts, c, r.cursor)
    &&& r.result is Ok && quiet(c, r.cursor) ==> r.result->Ok_0.len() <= MAX_ARGUMENTS && forall|
        i: int,
    |
        0 <= i < r.result->Ok_0.len() ==> (#[trigger] r.result->Ok_0[i]).kind
            == TokenKind::Identifier
}

/// What the parser gives as the parameters that follow the first ones.
pub proof fn lemma_params_tail(
    ts: Seq<TokenView>,
    c: Cursor,
    params: Seq<TokenView>,
    left_paren: TokenView,
)
    requires
        readable(ts, c),
    ensures
        onward(ts, c, parse_params_tail(ts, c, params, left_paren).cursor),
        params.len() <= MAX_ARGUMENTS && (forall|i: int|
            0 <= i < params.len() ==> (#[trigger] params[i]).kind == TokenKind::Identifier)
            ==> sound_params(ts, c, parse_params_tail(ts, c, params, left_paren)),
    decreases ts.len() - c.pos,
{
    if check(ts, c.pos, TokenKind::Comma) {
        lemma_expect(ts, c.step(), TokenKind::Identifier);
        let param = expect(ts, c.step(), TokenKind::Identifier);
        if param.result is Ok {
            let more = params.push(param.result->Ok_0);
            let after = if more.len() > MAX_ARGUMENTS {
                param.cursor.report(
                    crate::error::parse_error::ParseErrorView::TooManyFunctionArguments(
                        left_paren,
                    ),
                )
            } else {
                param.cursor
            };
            lemma_params_tail(ts, after, more, left_paren);
        }
    }
}

/// What the parser gives as the parameters of a function.
pub proof fn lemma_params(ts: Seq<TokenView>, c: Cursor, left_paren: TokenView)
    requires
        readable(ts, c),
    ensures
        sound_params(ts, c, parse_params(ts, c, left_paren)),
{
    if !check(ts, c.pos, TokenKind::RightParen) {
        lemma_expect(ts, c, TokenKind::Identifier);
        let first = expect(ts, c, TokenKind::Identifier);
        if first.result is Ok {
            lemma_params_tail(ts, first.cursor, seq![first.result->Ok_0], left_paren);
        }
    }
}

/// What the parser gives as a function declaration, after its keyword.
pub proof fn lemma_function_declaration(ts: Seq<TokenView>, c: Cursor)
    requires
        readable(ts, c),
    ensures
        sound_stmt(ts, c, parse_function_declaration(ts, c), false),
    decreases ts.len() - c.pos, 41int,
{
    lemma_expect(ts, c, TokenKind::Identifier);
    let name = expect(ts, c, TokenKind::Identifier);
    if name.result is Ok {
        lemma_expect(ts, name.cursor, TokenKind::LeftParen);
        let left_paren = expect(ts, name.cursor, TokenKind::LeftParen);
        if left_paren.result is Ok {
            lemma_params(ts, left_paren.cursor, left_paren.result->Ok_0);
            let params = parse_params(ts, left_paren.cursor, left_paren.result->Ok_0);
            if params.result is Ok {
                assert(params.cursor.from(ts, c.pos + 1) == params.cursor);
                lemma_expect(ts, params.cursor, TokenKind::RightParen);
                let right_paren = expect(ts, params.cursor, TokenKind::RightParen);
                if right_paren.result is Ok {
                    lemma_expect(ts, right_paren.cursor, TokenKind::LeftBrace);
                    let left_brace = expect(ts, right_paren.cursor, TokenKind::LeftBrace);
                    if left_brace.result is Ok {
                        lemma_block_statement(ts, left_brace.cursor);
                    }
                }
            }
        }
    }
}

/// What the parser gives as a declaration.
#[verifier::rlimit(50)]
pub proof fn lemma_declaration(ts: Seq<TokenView>, c: Cursor)
    requires
        readable(ts, c),
    ensures
        sound_stmt(ts, c, parse_declaration(ts, c), false),
    decreases ts.len() - c.pos, 45int,
{
    if check(ts, c.pos, TokenKind::Fun) {
        lemma_function_declaration(ts, c.step());
        assert(parse_declaration(ts, c) == parse_function_declaration(ts, c.step()));
    } else if check(ts, c.pos, TokenKind::Var) {
        lemma_var_declaration(ts, c.step());
        assert(parse_declaration(ts, c) == parse_var_declaration(ts, c.step()));
    } else {
        lemma_statement(ts, c);
        assert(parse_declaration(ts, c) == parse_statement(ts, c));
    }
}

/// The search for a statement boundary leads onward.
pub proof fn lemma_boundary(ts: Seq<TokenView>, pos: int)
    requires
        well_formed(ts),
        0 <= pos < ts.len(),
    ensures
        pos <= boundary(ts, pos) < ts.len(),
    decreases ts.len() - pos,
{
    if !at_end(ts, pos) && !(kind_at(ts, pos - 1) == TokenKind::SemiColon
        || crate::syntax::starts_statement(kind_at(ts, pos))) {
        lemma_boundary(ts, pos + 1);
    }
}

/// What the parser gives as one declaration, recovered from where it
/// failed: it went onward, past at least one token unless it stood at the
/// end, and where it reported nothing there is a statement, and it is
/// printable.
pub proof fn lemma_item(ts: Seq<TokenView>, c: Cursor)
    requires
        readable(ts, c),
    ensures
        onward(ts, c, parse_item(ts, c).cursor),
        !at_end(ts, c.pos) ==> c.pos < parse_item(ts, c).cursor.pos,
        quiet(c, parse_item(ts, c).cursor) ==> parse_item(ts, c).stmt is Some && printable_stmt(
            parse_item(ts, c).stmt->0,
        ),
    decreases ts.len() - c.pos, 46int,
{
    lemma_declaration(ts, c);
    let declaration = parse_declaration(ts, c);
    if declaration.result is Err {
        lemma_boundary(ts, advance(ts, declaration.cursor.pos));
    }
}

/// What the parser gives as the declarations of a block.
pub proof fn lemma_block_items(ts: Seq<TokenView>, c: Cursor, body: Seq<StmtView>)
    requires
        readable(ts, c),
    ensures
        onward(ts, c, parse_block_items(ts, c, body).cursor),
        printable_program(body) && quiet(c, parse_block_items(ts, c, body).cursor)
            ==> printable_program(parse_block_items(ts, c, body).statements),
    decreases ts.len() - c.pos, 47int,
{
    if !at_end(ts, c.pos) && !check(ts, c.pos, TokenKind::RightBrace) {
        lemma_item(ts, c);
        let item = parse_item(ts, c);
        assert(item.cursor.from(ts, c.pos + 1) == item.cursor);
        lemma_block_items(ts, item.cursor, body + option_seq(item.stmt));
    }
}

/// What the parser gives as a block, after its opening brace.
pub proof fn lemma_block_statement(ts: Seq<TokenView>, c: Cursor)
    requires
        readable(ts, c),
    ensures
        onward(ts, c, parse_block_statement(ts, c).cursor),
        parse_block_statement(ts, c).result is Ok ==> c.pos < parse_block_statement(
            ts,
            c,
        ).cursor.pos,
        parse_block_statement(ts, c).result is Ok && quiet(
            c,
            parse_block_statement(ts, c).cursor,
        ) ==> printable_program(parse_block_statement(ts, c).result->Ok_0),
    decreases ts.len() - c.pos, 48int,
{
    lemma_block_items(ts, c, Seq::empty());
    let items = parse_block_items(ts, c, Seq::empty());
    lemma_expect(ts, items.cursor, TokenKind::RightBrace);
}

/// What the parser gives as the declarations of a program.
pub proof fn lemma_items(ts: Seq<TokenView>, c: Cursor, statements: Seq<StmtView>)
    requires
        readable(ts, c),
    ensures
        onward(ts, c, parse_items(ts, c, statements).cursor),
        printable_program(statements) && quiet(c, parse_items(ts, c, statements).cursor)
            ==> printable_program(parse_items(ts, c, statements).statements),
    decreases ts.len() - c.pos,
{
    if !at_end(ts, c.pos) {
        lemma_item(ts, c);
        let item = parse_item(ts, c);
        assert(item.cursor.from(ts, c.pos + 1) == item.cursor);
        lemma_items(ts, item.cursor, statements + option_seq(item.stmt));
    }
}

/// A parse without an error gives a printable program: one that the grammar
/// can spell, and that reads back as it is from every printed form of it.
pub proof fn lemma_parsed_is_printable(ts: Seq<TokenView>, c: Cursor)
    requires
        readable(ts, c),
        quiet(c, parse_program(ts, c).cursor),
    ensures
        printable_program(parse_program(ts, c).statements),
{
    lemma_items(ts, c, Seq::empty());
}

/// Printing and reading back: where the parser gives a program without an
/// error, it gives the same program again when it reads a printed form of
/// that program, and again without an error. A `for` is printed as the
/// loop that it stands for.
pub proof fn lemma_print_then_parse(ts: Seq<TokenView>, printed: Seq<TokenView>, c: Cursor)
    requires
        well_formed(ts),
        c.pos == 0,
        quiet(c, parse_program(ts, c).cursor),
        crate::printing::spells_program(printed, parse_program(ts, c).statements),
    ensures
        parse_program(printed, c) == (Program {
            statements: parse_program(ts, c).statements,
            cursor: c.at(printed.len() - 1),
        }),
{
    lemma_parsed_is_printable(ts, c);
    crate::reparse::lemma_reparse_program(printed, c, parse_program(ts, c).statements);
}

} // verus!
