//! Printing a syntax tree as tokens: the tokens that the tree keeps, with the
//! punctuation and the keywords that the grammar asks for in between.

use crate::grammar::{
    expr_views, lemma_block_view, lemma_call_view, lemma_function_view, stmt_views, BlockStmt,
    Expr, ExprView, FunctionDeclarationStmt, IfStmt, ReturnStmt, Stmt, StmtView,
    VariableDeclarationStmt, WhileStmt,
};
use crate::printing::{
    spell_args, spell_expr, spell_params, spell_stmt, spell_stmts, spells_program,
};
use crate::error::error_reporter::{DiagnosticView, ErrorReporter};
use crate::parser::Parser;
use crate::printing::printable_program;
use crate::reparse::lemma_reparse_program;
use crate::syntax::Cursor;
use crate::token::{token_views, Token, TokenType, TokenView};
use vstd::prelude::*;

verus! {

/// True where the tokens `before` are the first of the tokens `after`.
pub open spec fn keeps(before: Seq<TokenView>, after: Seq<TokenView>) -> bool {
    before.len() <= after.len() && forall|i: int|
        0 <= i < before.len() ==> after[i] == #[trigger] before[i]
}

/// A printed form stays one when tokens are added behind it.
pub proof fn lemma_spell_expr_kept(
    before: Seq<TokenView>,
    after: Seq<TokenView>,
    p: int,
    expr: ExprView,
)
    requires
        0 <= p,
        keeps(before, after),
        spell_expr(before, p, expr) is Some,
    ensures
        spell_expr(after, p, expr) == spell_expr(before, p, expr),
        p < spell_expr(before, p, expr)->0 <= before.len(),
    decreases expr, 0nat,
{
    match expr {
        ExprView::Binary { lhs, operator, rhs } => {
            lemma_spell_expr_kept(before, after, p, *lhs);
            lemma_spell_expr_kept(before, after, spell_expr(before, p, *lhs)->0 + 1, *rhs);
        },
        ExprView::Logical { lhs, operator, rhs } => {
            lemma_spell_expr_kept(before, after, p, *lhs);
            lemma_spell_expr_kept(before, after, spell_expr(before, p, *lhs)->0 + 1, *rhs);
        },
        ExprView::Grouping { expr } => {
            lemma_spell_expr_kept(before, after, p + 1, *expr);
        },
        ExprView::Literal { token } => {},
        ExprView::Unary { operator, rhs } => {
            lemma_spell_expr_kept(before, after, p + 1, *rhs);
        },
        ExprView::Variable { name } => {},
        ExprView::Assignment { variable, expr } => {
            lemma_spell_expr_kept(before, after, p + 2, *expr);
        },
        ExprView::Call { callee, closing_paren, args } => {
            lemma_spell_expr_kept(before, after, p, *callee);
            lemma_spell_args_kept(before, after, spell_expr(before, p, *callee)->0 + 1, args, 0);
        },
    }
}

/// The printed form of arguments stays one when tokens are added behind it.
pub proof fn lemma_spell_args_kept(
    before: Seq<TokenView>,
    after: Seq<TokenView>,
    p: int,
    args: Seq<ExprView>,
    from: int,
)
    requires
        0 <= p <= before.len(),
        0 <= from,
        keeps(before, after),
        spell_args(before, p, args, from) is Some,
    ensures
        spell_args(after, p, args, from) == spell_args(before, p, args, from),
        p <= spell_args(before, p, args, from)->0 <= before.len(),
    decreases args, args.len() - from,
{
    if from < args.len() {
        lemma_spell_expr_kept(before, after, p, args[from]);
        if from + 1 < args.len() {
            lemma_spell_args_kept(
                before,
                after,
                spell_expr(before, p, args[from])->0 + 1,
                args,
                from + 1,
            );
        }
    }
}

/// The printed form of parameters stays one when tokens are added behind
/// it.
pub proof fn lemma_spell_params_kept(
    before: Seq<TokenView>,
    after: Seq<TokenView>,
    p: int,
    params: Seq<TokenView>,
    from: int,
)
    requires
        0 <= p <= before.len(),
        0 <= from,
        keeps(before, after),
        spell_params(before, p, params, from) is Some,
    ensures
        spell_params(after, p, params, from) == spell_params(before, p, params, from),
        p <= spell_params(before, p, params, from)->0 <= before.len(),
    decreases params.len() - from,
{
    if from + 1 < params.len() {
        lemma_spell_params_kept(before, after, p + 2, params, from + 1);
    }
}

/// The printed form of a statement stays one when tokens are added behind
/// it.
pub proof fn lemma_spell_stmt_kept(
    before: Seq<TokenView>,
    after: Seq<TokenView>,
    p: int,
    stmt: StmtView,
)
    requires
        0 <= p,
        keeps(before, after),
        spell_stmt(before, p, stmt) is Some,
    ensures
        spell_stmt(after, p, stmt) == spell_stmt(before, p, stmt),
        p < spell_stmt(before, p, stmt)->0 <= before.len(),
    decreases stmt, 0nat,
{
    match stmt {
        StmtView::VariableDeclaration { name, initializer } => {
            if let Some(expr) = initializer {
                lemma_spell_expr_kept(before, after, p + 3, expr);
            }
        },
        StmtView::Expression { expr } => {
            lemma_spell_expr_kept(before, after, p, expr);
        },
        StmtView::While { condition, body } => {
            lemma_spell_expr_kept(before, after, p + 2, condition);
            lemma_spell_stmt_kept(
                before,
                after,
                spell_expr(before, p + 2, condition)->0 + 1,
                *body,
            );
        },
        StmtView::FunctionDeclaration { name, params, body } => {
            lemma_spell_params_kept(before, after, p + 3, params, 0);
            lemma_spell_stmts_kept(
                before,
                after,
                spell_params(before, p + 3, params, 0)->0 + 2,
                body,
                0,
            );
        },
        StmtView::Block { body } => {
            lemma_spell_stmts_kept(before, after, p + 1, body, 0);
        },
        StmtView::If { condition, then_branch, else_branch } => {
            lemma_spell_expr_kept(before, after, p + 2, condition);
            let m = spell_expr(before, p + 2, condition)->0;
            lemma_spell_stmt_kept(before, after, m + 1, *then_branch);
            if let Some(branch) = else_branch {
                lemma_spell_stmt_kept(
                    before,
                    after,
                    spell_stmt(before, m + 1, *then_branch)->0 + 1,
                    *branch,
                );
            }
        },
        StmtView::Return { return_keyword, value } => {
            if let Some(expr) = value {
                lemma_spell_expr_kept(before, after, p + 1, expr);
            }
        },
    }
}

/// The printed form of statements stays one when tokens are added behind
/// it.
pub proof fn lemma_spell_stmts_kept(
    before: Seq<TokenView>,
    after: Seq<TokenView>,
    p: int,
    stmts: Seq<StmtView>,
    from: int,
)
    requires
        0 <= p <= before.len(),
        0 <= from,
        keeps(before, after),
        spell_stmts(before, p, stmts, from) is Some,
    ensures
        spell_stmts(after, p, stmts, from) == spell_stmts(before, p, stmts, from),
        p <= spell_stmts(before, p, stmts, from)->0 <= before.len(),
    decreases stmts, stmts.len() - from,
{
    if from < stmts.len() {
        lemma_spell_stmt_kept(before, after, p, stmts[from]);
        lemma_spell_stmts_kept(
            before,
            after,
            spell_stmt(before, p, stmts[from])->0,
            stmts,
            from + 1,
        );
    }
}

/// What a call of a printing function does to the tokens `before` when it
/// leaves the tokens `after`: it keeps them and adds behind them.
pub open spec fn printed(before: Seq<Token>, after: Seq<Token>) -> bool {
    keeps(token_views(before), token_views(after))
}

/// Adds the token `token`.
fn put(out: &mut Vec<Token>, token: Token)
    ensures
        printed(old(out)@, final(out)@),
        final(out)@.len() == old(out)@.len() + 1,
        token_views(final(out)@)[old(out)@.len() as int] == token@,
{
    out.push(token);
}

/// Adds a token of the type `token_type` that the grammar asks for and the
/// tree does not keep: a keyword or a punctuation mark.
fn mark(out: &mut Vec<Token>, token_type: TokenType)
    ensures
        printed(old(out)@, final(out)@),
        final(out)@.len() == old(out)@.len() + 1,
        token_views(final(out)@)[old(out)@.len() as int].kind == token_type.spec_kind(),
{
    let lexeme = token_type.to_string();
    put(out, Token::new(token_type, lexeme, 0));
}

/// Prints an expression: adds its tokens to `out`.
pub fn print_expr(expr: &Expr, out: &mut Vec<Token>)
    ensures
        printed(old(out)@, final(out)@),
        spell_expr(token_views(final(out)@), old(out)@.len() as int, expr@) == Some(
            final(out)@.len() as int,
        ),
    decreases expr, 0nat,
{
    let ghost p = out@.len() as int;
    match expr {
        Expr::Binary(binary) => {
            print_expr(&binary.lhs, out);
            let ghost first = token_views(out@);
            put(out, binary.operator.clone());
            print_expr(&binary.rhs, out);
            proof {
                lemma_spell_expr_kept(first, token_views(out@), p, binary.lhs@);
            }
        },
        Expr::Logical(binary) => {
            print_expr(&binary.lhs, out);
            let ghost first = token_views(out@);
            put(out, binary.operator.clone());
            print_expr(&binary.rhs, out);
            proof {
                lemma_spell_expr_kept(first, token_views(out@), p, binary.lhs@);
            }
        },
        Expr::Grouping(grouping) => {
            mark(out, TokenType::LeftParen);
            print_expr(&grouping.expr, out);
            let ghost inner = token_views(out@);
            mark(out, TokenType::RightParen);
            proof {
                lemma_spell_expr_kept(inner, token_views(out@), p + 1, grouping.expr@);
            }
        },
        Expr::Literal(literal) => {
            put(out, literal.token.clone());
        },
        Expr::Unary(unary) => {
            put(out, unary.operator.clone());
            print_expr(&unary.rhs, out);
        },
        Expr::Variable(variable) => {
            put(out, variable.name.clone());
        },
        Expr::Assignment(assignment) => {
            put(out, assignment.variable.clone());
            mark(out, TokenType::Equal);
            print_expr(&assignment.expr, out);
        },
        Expr::Call(call) => {
            proof {
                lemma_call_view(*call);
            }
            print_expr(&call.callee, out);
            let ghost first = token_views(out@);
            let ghost m = out@.len() as int;
            mark(out, TokenType::LeftParen);
            print_args(&call.args, 0, out);
            let ghost second = token_views(out@);
            put(out, call.closing_paren.clone());
            proof {
                lemma_spell_expr_kept(first, token_views(out@), p, call.callee@);
                lemma_spell_args_kept(second, token_views(out@), m + 1, expr_views(call.args@), 0);
            }
        },
    }
}

/// Prints the arguments from number `from` on, with a comma between two.
fn print_args(args: &Vec<Expr>, from: usize, out: &mut Vec<Token>)
    ensures
        printed(old(out)@, final(out)@),
        spell_args(token_views(final(out)@), old(out)@.len() as int, expr_views(args@), from as int)
            == Some(final(out)@.len() as int),
    decreases args, args.len() - from,
{
    if from < args.len() {
        let ghost p = out@.len() as int;
        print_expr(&args[from], out);
        let ghost first = token_views(out@);
        if from + 1 < args.len() {
            mark(out, TokenType::Comma);
            print_args(args, from + 1, out);
            proof {
                lemma_spell_expr_kept(first, token_views(out@), p, args[from as int]@);
            }
        }
    }
}

/// Prints the parameters from number `from` on, with a comma between two.
fn print_params(params: &Vec<Token>, from: usize, out: &mut Vec<Token>)
    ensures
        printed(old(out)@, final(out)@),
        spell_params(
            token_views(final(out)@),
            old(out)@.len() as int,
            token_views(params@),
            from as int,
        ) == Some(final(out)@.len() as int),
    decreases params.len() - from,
{
    if from < params.len() {
        put(out, params[from].clone());
        if from + 1 < params.len() {
            mark(out, TokenType::Comma);
            print_params(params, from + 1, out);
        }
    }
}

/// Prints a variable declaration.
fn print_var(declaration: &VariableDeclarationStmt, out: &mut Vec<Token>)
    ensures
        printed(old(out)@, final(out)@),
        spell_stmt(
            token_views(final(out)@),
            old(out)@.len() as int,
            Stmt::VariableDeclaration(*declaration)@,
        ) == Some(final(out)@.len() as int),
{
    let ghost p = out@.len() as int;
    mark(out, TokenType::Var);
    put(out, declaration.name.clone());
    match &declaration.initializer {
        Some(initializer) => {
            mark(out, TokenType::Equal);
            print_expr(initializer, out);
            let ghost first = token_views(out@);
            mark(out, TokenType::SemiColon);
            proof {
                lemma_spell_expr_kept(first, token_views(out@), p + 3, initializer@);
            }
        },
        None => {
            mark(out, TokenType::SemiColon);
        },
    }
}

/// Prints a return statement.
fn print_return(statement: &ReturnStmt, out: &mut Vec<Token>)
    ensures
        printed(old(out)@, final(out)@),
        spell_stmt(token_views(final(out)@), old(out)@.len() as int, Stmt::Return(*statement)@)
            == Some(final(out)@.len() as int),
{
    let ghost p = out@.len() as int;
    put(out, statement.return_keyword.clone());
    match &statement.value {
        Some(value) => {
            print_expr(value, out);
            let ghost first = token_views(out@);
            mark(out, TokenType::SemiColon);
            proof {
                lemma_spell_expr_kept(first, token_views(out@), p + 1, value@);
            }
        },
        None => {
            mark(out, TokenType::SemiColon);
        },
    }
}

/// Prints a loop.
fn print_while(statement: &WhileStmt, out: &mut Vec<Token>)
    ensures
        printed(old(out)@, final(out)@),
        spell_stmt(token_views(final(out)@), old(out)@.len() as int, Stmt::While(*statement)@)
            == Some(final(out)@.len() as int),
    decreases statement, 0nat,
{
    let ghost p = out@.len() as int;
    mark(out, TokenType::While);
    mark(out, TokenType::LeftParen);
    print_expr(&statement.condition, out);
    let ghost first = token_views(out@);
    mark(out, TokenType::RightParen);
    print_stmt(&statement.body, out);
    proof {
        lemma_spell_expr_kept(first, token_views(out@), p + 2, statement.condition@);
    }
}

/// Prints an `if`.
fn print_if(statement: &IfStmt, out: &mut Vec<Token>)
    ensures
        printed(old(out)@, final(out)@),
        spell_stmt(token_views(final(out)@), old(out)@.len() as int, Stmt::If(*statement)@)
            == Some(final(out)@.len() as int),
    decreases statement, 0nat,
{
    let ghost p = out@.len() as int;
    mark(out, TokenType::If);
    mark(out, TokenType::LeftParen);
    print_expr(&statement.condition, out);
    let ghost first = token_views(out@);
    let ghost m = out@.len() as int;
    mark(out, TokenType::RightParen);
    print_stmt(&statement.then_branch, out);
    let ghost second = token_views(out@);
    match &statement.else_branch {
        Some(branch) => {
            mark(out, TokenType::Else);
            print_stmt(branch, out);
        },
        None => {},
    }
    proof {
        lemma_spell_expr_kept(first, token_views(out@), p + 2, statement.condition@);
        lemma_spell_stmt_kept(second, token_views(out@), m + 1, statement.then_branch@);
    }
}

/// Prints a function declaration.
fn print_function(declaration: &FunctionDeclarationStmt, out: &mut Vec<Token>)
    ensures
        printed(old(out)@, final(out)@),
        spell_stmt(
            token_views(final(out)@),
            old(out)@.len() as int,
            Stmt::FunctionDeclaration(*declaration)@,
        ) == Some(final(out)@.len() as int),
    decreases declaration, 0nat,
{
    let ghost p = out@.len() as int;
    proof {
        lemma_function_view(*declaration);
    }
    mark(out, TokenType::Fun);
    put(out, declaration.name.clone());
    mark(out, TokenType::LeftParen);
    print_params(&declaration.params, 0, out);
    let ghost first = token_views(out@);
    let ghost m = out@.len() as int;
    mark(out, TokenType::RightParen);
    mark(out, TokenType::LeftBrace);
    print_stmts(&declaration.body, 0, out);
    let ghost second = token_views(out@);
    mark(out, TokenType::RightBrace);
    proof {
        lemma_spell_params_kept(
            first,
            token_views(out@),
            p + 3,
            token_views(declaration.params@),
            0,
        );
        lemma_spell_stmts_kept(second, token_views(out@), m + 2, stmt_views(declaration.body@), 0);
    }
}

/// Prints a block.
fn print_block(block: &BlockStmt, out: &mut Vec<Token>)
    ensures
        printed(old(out)@, final(out)@),
        spell_stmt(token_views(final(out)@), old(out)@.len() as int, Stmt::Block(*block)@)
            == Some(final(out)@.len() as int),
    decreases block, 0nat,
{
    let ghost p = out@.len() as int;
    proof {
        lemma_block_view(*block);
    }
    mark(out, TokenType::LeftBrace);
    print_stmts(&block.body, 0, out);
    let ghost first = token_views(out@);
    mark(out, TokenType::RightBrace);
    proof {
        lemma_spell_stmts_kept(first, token_views(out@), p + 1, stmt_views(block.body@), 0);
    }
}

/// Prints a statement: adds its tokens to `out`.
pub fn print_stmt(stmt: &Stmt, out: &mut Vec<Token>)
    ensures
        printed(old(out)@, final(out)@),
        spell_stmt(token_views(final(out)@), old(out)@.len() as int, stmt@) == Some(
            final(out)@.len() as int,
        ),
    decreases stmt, 0nat,
{
    let ghost p = out@.len() as int;
    match stmt {
        Stmt::VariableDeclaration(declaration) => print_var(declaration, out),
        Stmt::Expression(statement) => {
            print_expr(&statement.expr, out);
            let ghost first = token_views(out@);
            mark(out, TokenType::SemiColon);
            proof {
                lemma_spell_expr_kept(first, token_views(out@), p, statement.expr@);
            }
        },
        Stmt::While(statement) => print_while(statement, out),
        Stmt::FunctionDeclaration(declaration) => print_function(declaration, out),
        Stmt::Block(block) => print_block(block, out),
        Stmt::If(statement) => print_if(statement, out),
        Stmt::Return(statement) => print_return(statement, out),
    }
}

/// Prints the statements from number `from` on, one after the other.
fn print_stmts(stmts: &Vec<Stmt>, from: usize, out: &mut Vec<Token>)
    ensures
        printed(old(out)@, final(out)@),
        spell_stmts(token_views(final(out)@), old(out)@.len() as int, stmt_views(stmts@), from as int)
            == Some(final(out)@.len() as int),
    decreases stmts, stmts.len() - from,
{
    if from < stmts.len() {
        let ghost p = out@.len() as int;
        print_stmt(&stmts[from], out);
        let ghost first = token_views(out@);
        print_stmts(stmts, from + 1, out);
        proof {
            lemma_spell_stmt_kept(first, token_views(out@), p, stmts[from as int]@);
        }
    }
}

/// Prints a program: the tokens of its statements, and the end of the
/// input. A parser that reads them gives the program back, where the
/// program is printable.
pub fn print_program(stmts: &Vec<Stmt>) -> (tokens: Vec<Token>)
    ensures
        spells_program(token_views(tokens@), stmt_views(stmts@)),
{
    let mut tokens: Vec<Token> = Vec::new();
    print_stmts(stmts, 0, &mut tokens);
    let ghost first = token_views(tokens@);
    put(&mut tokens, Token::new(TokenType::Eof, String::new(), 0));
    proof {
        lemma_spell_stmts_kept(first, token_views(tokens@), 0, stmt_views(stmts@), 0);
    }
    tokens
}

/// Prints a printable program and reads it back. The parser gives the
/// program again, and reports nothing.
pub fn read_back(stmts: &Vec<Stmt>) -> (result: (Vec<Stmt>, ErrorReporter))
    requires
        printable_program(stmt_views(stmts@)),
    ensures
        stmt_views(result.0@) == stmt_views(stmts@),
        result.1@ == Seq::<DiagnosticView>::empty(),
        !result.1.had_error,
{
    let tokens = print_program(stmts);
    proof {
        lemma_reparse_program(
            token_views(tokens@),
            Cursor { pos: 0, reports: Seq::empty(), had_error: false },
            stmt_views(stmts@),
        );
    }
    Parser::new(tokens, ErrorReporter::new()).parse()
}

} // verus!
