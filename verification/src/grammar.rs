use crate::token::{Token, TokenView};
use vstd::prelude::*;

verus! {

/// Represents the grammar for expressions in Lox.
#[derive(Debug, PartialEq)]
pub enum Expr {
    Binary(BinaryExpr),
    Grouping(GroupingExpr),
    Literal(LiteralExpr),
    Unary(UnaryExpr),
    Variable(VariableExpr),
    Assignment(AssignmentExpr),
    Logical(BinaryExpr),
    Call(CallExpr),
}

/// Represents a Binary Expression.
/// (Two expressions with an operator in the middle)
#[derive(Debug, PartialEq)]
pub struct BinaryExpr {
    pub lhs: Box<Expr>,
    pub operator: Token,
    pub rhs: Box<Expr>,
}

/// Represents a Unary Expression.
/// (An operator on the left and an expression to the right, i.e !some_func() or -7)
#[derive(Debug, PartialEq)]
pub struct UnaryExpr {
    pub operator: Token,
    pub rhs: Box<Expr>,
}

/// Represents an expression enclosed in parentheses.
#[derive(Debug, PartialEq)]
pub struct GroupingExpr {
    pub expr: Box<Expr>,
}

/// Represents a literal value, like a number or string.
#[derive(Debug, PartialEq)]
pub struct LiteralExpr {
    pub token: Token,
}

/// Represents a single variable.
#[derive(Debug, PartialEq)]
pub struct VariableExpr {
    pub name: Token,
}

/// Represents variable assignment.
/// Note: variable assignment is an expression, not a statement.
/// Thus the expression `name = "Ben"` actually evaluates
/// to the string "Ben".
#[derive(Debug, PartialEq)]
pub struct AssignmentExpr {
    pub variable: Token,
    pub expr: Box<Expr>,
}

/// Represents a function call (or anything callable like a method).
/// For example: `clock()`
#[derive(Debug, PartialEq)]
pub struct CallExpr {
    pub callee: Box<Expr>,
    pub closing_paren: Token,
    pub args: Vec<Expr>,
}

/// Represents the grammar for statements in Lox.
#[derive(Debug, PartialEq)]
pub enum Stmt {
    VariableDeclaration(VariableDeclarationStmt),
    Expression(ExpressionStmt),
    While(WhileStmt),
    FunctionDeclaration(FunctionDeclarationStmt),
    Block(BlockStmt),
    If(IfStmt),
    Return(ReturnStmt),
}

/// Represents a while loop.
#[derive(Debug, PartialEq)]
pub struct WhileStmt {
    pub condition: Expr,
    pub body: Box<Stmt>,
}

/// Represents variable declaration
/// `var a = true;`
#[derive(Debug, PartialEq)]
pub struct VariableDeclarationStmt {
    pub name: Token,
    pub initializer: Option<Expr>,
}

/// Represents a function definition.
/// `fun show_name() { print("Ben"); }`
#[derive(Debug, PartialEq)]
pub struct FunctionDeclarationStmt {
    pub name: Token,
    pub params: Vec<Token>,
    pub body: Vec<Stmt>,
}

/// Represents an expression statement (an expression followed by a semi colon).
/// The most common of these is a single function call
/// `doTheThing();`
#[derive(Debug, PartialEq)]
pub struct ExpressionStmt {
    pub expr: Expr,
}

/// Represents some code between braces
/// `{ ... some code ... }`
#[derive(Debug, PartialEq)]
pub struct BlockStmt {
    pub body: Vec<Stmt>,
}

/// Represents an if statement.
#[derive(Debug, PartialEq)]
pub struct IfStmt {
    pub condition: Expr,
    pub then_branch: Box<Stmt>,
    pub else_branch: Option<Box<Stmt>>,
}

/// Represents a return statement.
#[derive(Debug, PartialEq)]
pub struct ReturnStmt {
    pub return_keyword: Token,
    pub value: Option<Expr>,
}

/// An expression as a mathematical tree: what [`Expr`] says, with tokens by
/// their views and argument lists as sequences.
pub enum ExprView {
    Binary { lhs: Box<ExprView>, operator: TokenView, rhs: Box<ExprView> },
    Grouping { expr: Box<ExprView> },
    Literal { token: TokenView },
    Unary { operator: TokenView, rhs: Box<ExprView> },
    Variable { name: TokenView },
    Assignment { variable: TokenView, expr: Box<ExprView> },
    Logical { lhs: Box<ExprView>, operator: TokenView, rhs: Box<ExprView> },
    Call { callee: Box<ExprView>, closing_paren: TokenView, args: Seq<ExprView> },
}

/// A statement as a mathematical tree: what [`Stmt`] says, with tokens by
/// their views and bodies as sequences.
pub enum StmtView {
    VariableDeclaration { name: TokenView, initializer: Option<ExprView> },
    Expression { expr: ExprView },
    While { condition: ExprView, body: Box<StmtView> },
    FunctionDeclaration { name: TokenView, params: Seq<TokenView>, body: Seq<StmtView> },
    Block { body: Seq<StmtView> },
    If { condition: ExprView, then_branch: Box<StmtView>, else_branch: Option<Box<StmtView>> },
    Return { return_keyword: TokenView, value: Option<ExprView> },
}

/// The view of an expression.
pub open spec fn expr_view(expr: Expr) -> ExprView
    decreases expr,
{
    match expr {
        Expr::Binary(binary) => ExprView::Binary {
            lhs: Box::new(expr_view(*binary.lhs)),
            operator: binary.operator@,
            rhs: Box::new(expr_view(*binary.rhs)),
        },
        Expr::Grouping(grouping) => ExprView::Grouping {
            expr: Box::new(expr_view(*grouping.expr)),
        },
        Expr::Literal(literal) => ExprView::Literal { token: literal.token@ },
        Expr::Unary(unary) => ExprView::Unary {
            operator: unary.operator@,
            rhs: Box::new(expr_view(*unary.rhs)),
        },
        Expr::Variable(variable) => ExprView::Variable { name: variable.name@ },
        Expr::Assignment(assignment) => ExprView::Assignment {
            variable: assignment.variable@,
            expr: Box::new(expr_view(*assignment.expr)),
        },
        Expr::Logical(binary) => ExprView::Logical {
            lhs: Box::new(expr_view(*binary.lhs)),
            operator: binary.operator@,
            rhs: Box::new(expr_view(*binary.rhs)),
        },
        Expr::Call(call) => ExprView::Call {
            callee: Box::new(expr_view(*call.callee)),
            closing_paren: call.closing_paren@,
            args: Seq::new(
                call.args.len() as nat,
                |i: int|
                    if 0 <= i < call.args.len() {
                        expr_view(call.args[i])
                    } else {
                        ExprView::Literal { token: call.closing_paren@ }
                    },
            ),
        },
    }
}

/// The views of a sequence of expressions, in order.
pub open spec fn expr_views(exprs: Seq<Expr>) -> Seq<ExprView> {
    Seq::new(exprs.len(), |i: int| expr_view(exprs[i]))
}

/// The view of an optional expression.
pub open spec fn option_expr_view(expr: Option<Expr>) -> Option<ExprView> {
    match expr {
        Some(expr) => Some(expr_view(expr)),
        None => None,
    }
}

/// The view of a statement.
pub open spec fn stmt_view(stmt: Stmt) -> StmtView
    decreases stmt,
{
    match stmt {
        Stmt::VariableDeclaration(declaration) => StmtView::VariableDeclaration {
            name: declaration.name@,
            initializer: option_expr_view(declaration.initializer),
        },
        Stmt::Expression(statement) => StmtView::Expression { expr: expr_view(statement.expr) },
        Stmt::While(statement) => StmtView::While {
            condition: expr_view(statement.condition),
            body: Box::new(stmt_view(*statement.body)),
        },
        Stmt::FunctionDeclaration(declaration) => StmtView::FunctionDeclaration {
            name: declaration.name@,
            params: crate::token::token_views(declaration.params@),
            body: Seq::new(
                declaration.body.len() as nat,
                |i: int|
                    if 0 <= i < declaration.body.len() {
                        stmt_view(declaration.body[i])
                    } else {
                        StmtView::Block { body: Seq::empty() }
                    },
            ),
        },
        Stmt::Block(block) => StmtView::Block {
            body: Seq::new(
                block.body.len() as nat,
                |i: int|
                    if 0 <= i < block.body.len() {
                        stmt_view(block.body[i])
                    } else {
                        StmtView::Block { body: Seq::empty() }
                    },
            ),
        },
        Stmt::If(statement) => StmtView::If {
            condition: expr_view(statement.condition),
            then_branch: Box::new(stmt_view(*statement.then_branch)),
            else_branch: match statement.else_branch {
                Some(branch) => Some(Box::new(stmt_view(*branch))),
                None => None,
            },
        },
        Stmt::Return(statement) => StmtView::Return {
            return_keyword: statement.return_keyword@,
            value: option_expr_view(statement.value),
        },
    }
}

/// The views of a sequence of statements, in order.
pub open spec fn stmt_views(stmts: Seq<Stmt>) -> Seq<StmtView> {
    Seq::new(stmts.len(), |i: int| stmt_view(stmts[i]))
}

/// The arguments of a call are seen one by one.
pub proof fn lemma_call_view(call: CallExpr)
    ensures
        expr_view(Expr::Call(call)) == (ExprView::Call {
            callee: Box::new(expr_view(*call.callee)),
            closing_paren: call.closing_paren@,
            args: expr_views(call.args@),
        }),
{
    assert(expr_view(Expr::Call(call))->Call_args =~= expr_views(call.args@));
}

/// The statements of a block are seen one by one.
pub proof fn lemma_block_view(block: BlockStmt)
    ensures
        stmt_view(Stmt::Block(block)) == (StmtView::Block { body: stmt_views(block.body@) }),
{
    assert(stmt_view(Stmt::Block(block))->Block_body =~= stmt_views(block.body@));
}

/// The statements of a function's body are seen one by one.
pub proof fn lemma_function_view(declaration: FunctionDeclarationStmt)
    ensures
        stmt_view(Stmt::FunctionDeclaration(declaration)) == (StmtView::FunctionDeclaration {
            name: declaration.name@,
            params: crate::token::token_views(declaration.params@),
            body: stmt_views(declaration.body@),
        }),
{
    assert(stmt_view(Stmt::FunctionDeclaration(declaration))->FunctionDeclaration_body
        =~= stmt_views(declaration.body@));
}

impl View for Expr {
    type V = ExprView;

    open spec fn view(&self) -> ExprView {
        expr_view(*self)
    }
}

impl View for Stmt {
    type V = StmtView;

    open spec fn view(&self) -> StmtView {
        stmt_view(*self)
    }
}

} // verus!
