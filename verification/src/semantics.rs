//! What a Lox program means: the value of an expression and the effect of a
//! statement, told by the shape of the program.
//!
//! The meaning is that of a tree-walk. An expression has a value; a
//! statement has a signal, which is the value of the `return` that ended it,
//! if one did. Both change the world: the variables, what has been shown to
//! the embedding program, and its answers that are still to come. The
//! embedding program is asked for arithmetic on doubles, for their
//! numerals and for the time. Whatever it answers is taken.
//!
//! A program need not end. So the meaning is told for a number of nested
//! evaluations, the fuel: with too little of it, or too few answers, there
//! is no outcome yet.

use crate::callable::{Callable, LoxCallable};
use crate::environment::{undefined_variable, EnvironmentView};
use crate::error::runtime_error::RuntimeErrorView;
use crate::function::LoxFunction;
use crate::grammar::{Expr, Stmt};
use crate::machine::{arity_error, bind_parameters, not_callable, text_of, ActionView};
use crate::object::LoxObjectView;
use crate::operators::{
    binary_value, literal_value, short_circuits, unary_value, EvaluationView, RequestView,
};
use crate::token::TokenView;
use vstd::prelude::*;

verus! {

/// What a program acts on.
pub struct World<'a> {
    /// The scopes and their variables.
    pub environment: EnvironmentView<'a>,
    /// The answers of the embedding program that have not been used yet,
    /// the next one first.
    pub answers: Seq<LoxObjectView<'a>>,
    /// What the embedding program has been asked and told so far, in order.
    pub actions: Seq<ActionView>,
}

/// What comes of an evaluation or an execution.
pub enum Outcome<'a, T> {
    /// It ended, with this result, and left this world.
    Done(T, World<'a>),
    /// It met this runtime error, in this world. The program is halted.
    Failed(RuntimeErrorView, World<'a>),
    /// The fuel or the answers ran out.
    Stalled,
}

impl<'a> World<'a> {
    /// The world in the environment `environment`.
    pub open spec fn within(self, environment: EnvironmentView<'a>) -> Self {
        World { environment, ..self }
    }

    /// The world after `action` was shown to the embedding program.
    pub open spec fn after(self, action: ActionView) -> Self {
        World { actions: self.actions.push(action), ..self }
    }

    /// Asks the embedding program for `request`: the value is its next
    /// answer.
    pub open spec fn request(self, request: RequestView) -> Outcome<'a, LoxObjectView<'a>> {
        if self.answers.len() == 0 {
            Outcome::Stalled
        } else {
            Outcome::Done(
                self.answers[0],
                World {
                    answers: self.answers.drop_first(),
                    actions: self.actions.push(ActionView::Ask(request)),
                    ..self
                },
            )
        }
    }

    /// What follows an evaluation: the value, the answer to the request, or
    /// the error.
    pub open spec fn settle(self, evaluation: EvaluationView<'a>) -> Outcome<
        'a,
        LoxObjectView<'a>,
    > {
        match evaluation {
            EvaluationView::Value(value) => Outcome::Done(value, self),
            EvaluationView::Ask(request) => self.request(request),
            EvaluationView::Error(error) => Outcome::Failed(error, self),
        }
    }
}

/// Prints `value`: its text is shown, and the value of the call is `nil`.
/// The text of a number is asked for first.
pub open spec fn print<'a>(value: LoxObjectView<'a>, w: World<'a>, fuel: nat) -> Outcome<
    'a,
    LoxObjectView<'a>,
>
    decreases fuel,
{
    if fuel == 0 {
        Outcome::Stalled
    } else {
        match value {
            LoxObjectView::Number(number) => match w.request(RequestView::Format(number)) {
                Outcome::Done(text, w1) => print(text, w1, (fuel - 1) as nat),
                Outcome::Failed(error, w1) => Outcome::Failed(error, w1),
                Outcome::Stalled => Outcome::Stalled,
            },
            _ => Outcome::Done(
                LoxObjectView::Nil,
                w.after(ActionView::Print(text_of(value)->0)),
            ),
        }
    }
}

/// The value of the expression `expr` in the world `w`.
///
/// A literal is its value, a grouping the value of what it holds, a
/// variable the value it is bound to in the nearest scope. An assignment
/// has the value it assigns. `and` and `or` give their left operand where
/// that decides, and then leave the right one alone; else they give the
/// right one. A binary operator evaluates its left operand, then its right
/// one, and then applies itself. A call evaluates its callee, then its
/// arguments from left to right, and then calls.
pub open spec fn eval<'a>(expr: &'a Expr, w: World<'a>, fuel: nat) -> Outcome<
    'a,
    LoxObjectView<'a>,
>
    decreases fuel,
{
    if fuel == 0 {
        Outcome::Stalled
    } else {
        let less = (fuel - 1) as nat;
        match expr {
            Expr::Literal(literal) => w.settle(literal_value(literal.token@)),
            Expr::Grouping(grouping) => eval(&*grouping.expr, w, less),
            Expr::Variable(variable) => match w.environment.get(variable.name.lexeme@) {
                Some(value) => Outcome::Done(value, w),
                None => Outcome::Failed(undefined_variable(variable.name@), w),
            },
            Expr::Assignment(assignment) => match eval(&*assignment.expr, w, less) {
                Outcome::Done(value, w1) => match w1.environment.holder(
                    w1.environment.current as int,
                    assignment.variable.lexeme@,
                ) {
                    Some(_) => Outcome::Done(
                        value,
                        w1.within(w1.environment.assign(assignment.variable.lexeme@, value)),
                    ),
                    None => Outcome::Failed(undefined_variable(assignment.variable@), w1),
                },
                other => other,
            },
            Expr::Unary(unary) => match eval(&*unary.rhs, w, less) {
                Outcome::Done(value, w1) => w1.settle(unary_value(unary.operator@, value)),
                other => other,
            },
            Expr::Logical(binary) => match eval(&*binary.lhs, w, less) {
                Outcome::Done(left, w1) => if short_circuits(binary.operator@.kind, left) {
                    Outcome::Done(left, w1)
                } else {
                    eval(&*binary.rhs, w1, less)
                },
                other => other,
            },
            Expr::Binary(binary) => match eval(&*binary.lhs, w, less) {
                Outcome::Done(left, w1) => match eval(&*binary.rhs, w1, less) {
                    Outcome::Done(right, w2) => w2.settle(
                        binary_value(binary.operator@, left, right),
                    ),
                    other => other,
                },
                other => other,
            },
            Expr::Call(call) => match eval(&*call.callee, w, less) {
                Outcome::Done(callee, w1) => match eval_args(
                    &call.args,
                    0,
                    Seq::empty(),
                    w1,
                    less,
                ) {
                    Outcome::Done(args, w2) => apply(callee, args, call.closing_paren@, w2, less),
                    Outcome::Failed(error, w2) => Outcome::Failed(error, w2),
                    Outcome::Stalled => Outcome::Stalled,
                },
                other => other,
            },
        }
    }
}

/// The values of the arguments from number `from` on, behind the values
/// `done` of those before them.
pub open spec fn eval_args<'a>(
    args: &'a Vec<Expr>,
    from: int,
    done: Seq<LoxObjectView<'a>>,
    w: World<'a>,
    fuel: nat,
) -> Outcome<'a, Seq<LoxObjectView<'a>>>
    decreases fuel,
{
    if fuel == 0 {
        Outcome::Stalled
    } else if from < 0 || from >= args.len() {
        Outcome::Done(done, w)
    } else {
        match eval(&args[from], w, (fuel - 1) as nat) {
            Outcome::Done(value, w1) => eval_args(
                args,
                from + 1,
                done.push(value),
                w1,
                (fuel - 1) as nat,
            ),
            Outcome::Failed(error, w1) => Outcome::Failed(error, w1),
            Outcome::Stalled => Outcome::Stalled,
        }
    }
}

/// The value of a call of `callee` with the arguments `args`.
///
/// What is no function cannot be called, and a function only with as many
/// arguments as it has parameters. The clock is asked for, `print` prints
/// and `print_env` has the environment printed. The body of a declared
/// function runs in a new scope inside the one that the function closes
/// over, with the parameters bound there; the value of the call is that of
/// the `return` that ended the body, or `nil`, and the caller is back in its
/// own scope.
pub open spec fn apply<'a>(
    callee: LoxObjectView<'a>,
    args: Seq<LoxObjectView<'a>>,
    paren: TokenView,
    w: World<'a>,
    fuel: nat,
) -> Outcome<'a, LoxObjectView<'a>>
    decreases fuel,
{
    if fuel == 0 {
        Outcome::Stalled
    } else {
        match callee {
            LoxObjectView::Function(callable) => if args.len() != callable.spec_arity() {
                Outcome::Failed(
                    arity_error(paren, callable.spec_arity() as nat, args.len()),
                    w,
                )
            } else {
                match callable {
                    Callable::Clock(_) => w.request(RequestView::Clock),
                    Callable::PrintEnv(_) => Outcome::Done(
                        LoxObjectView::Nil,
                        w.after(ActionView::PrintEnvironment),
                    ),
                    Callable::Print(_) => print(args[0], w, (fuel - 1) as nat),
                    Callable::Function(function) => match exec_list(
                        &function.declaration.body,
                        0,
                        w.within(
                            bind_parameters(
                                w.environment.enter(function.closure),
                                function.declaration.params@,
                                args,
                                0,
                            ),
                        ),
                        (fuel - 1) as nat,
                    ) {
                        Outcome::Done(signal, w1) => Outcome::Done(
                            match signal {
                                Some(value) => value,
                                None => LoxObjectView::Nil,
                            },
                            w1.within(
                                w1.environment.leave(w.environment.current),
                            ),
                        ),
                        Outcome::Failed(error, w1) => Outcome::Failed(error, w1),
                        Outcome::Stalled => Outcome::Stalled,
                    },
                }
            },
            _ => Outcome::Failed(not_callable(paren), w),
        }
    }
}

/// The effect of the statement `stmt` on the world `w`, and its signal.
///
/// An expression statement evaluates and has no signal. A variable
/// declaration binds the value of its initializer, or `nil`, in the current
/// scope. A block runs its statements in a new scope and leaves it again,
/// whatever the signal. An `if` runs one of its branches. A `while` runs
/// its body for as long as its condition is truthy and no signal comes. A
/// function declaration binds a function that closes over the current
/// scope. A `return` has the value of its expression, or `nil`, as its
/// signal.
pub open spec fn exec<'a>(stmt: &'a Stmt, w: World<'a>, fuel: nat) -> Outcome<
    'a,
    Option<LoxObjectView<'a>>,
>
    decreases fuel,
{
    if fuel == 0 {
        Outcome::Stalled
    } else {
        let less = (fuel - 1) as nat;
        match stmt {
            Stmt::Expression(statement) => match eval(&statement.expr, w, less) {
                Outcome::Done(_, w1) => Outcome::Done(None, w1),
                Outcome::Failed(error, w1) => Outcome::Failed(error, w1),
                Outcome::Stalled => Outcome::Stalled,
            },
            Stmt::VariableDeclaration(declaration) => match &declaration.initializer {
                Some(initializer) => match eval(initializer, w, less) {
                    Outcome::Done(value, w1) => Outcome::Done(
                        None,
                        w1.within(w1.environment.define(declaration.name.lexeme@, value)),
                    ),
                    Outcome::Failed(error, w1) => Outcome::Failed(error, w1),
                    Outcome::Stalled => Outcome::Stalled,
                },
                None => Outcome::Done(
                    None,
                    w.within(
                        w.environment.define(declaration.name.lexeme@, LoxObjectView::Nil),
                    ),
                ),
            },
            Stmt::Block(block) => match exec_list(
                &block.body,
                0,
                w.within(w.environment.enter(w.environment.current)),
                less,
            ) {
                Outcome::Done(signal, w1) => Outcome::Done(
                    signal,
                    w1.within(w1.environment.leave(w.environment.current)),
                ),
                other => other,
            },
            Stmt::If(statement) => match eval(&statement.condition, w, less) {
                Outcome::Done(condition, w1) => if condition.is_truthy() {
                    exec(&*statement.then_branch, w1, less)
                } else {
                    match &statement.else_branch {
                        Some(branch) => exec(&**branch, w1, less),
                        None => Outcome::Done(None, w1),
                    }
                },
                Outcome::Failed(error, w1) => Outcome::Failed(error, w1),
                Outcome::Stalled => Outcome::Stalled,
            },
            Stmt::While(statement) => match eval(&statement.condition, w, less) {
                Outcome::Done(condition, w1) => if condition.is_truthy() {
                    match exec(&*statement.body, w1, less) {
                        Outcome::Done(signal, w2) => if signal is Some {
                            Outcome::Done(signal, w2)
                        } else {
                            exec(stmt, w2, less)
                        },
                        other => other,
                    }
                } else {
                    Outcome::Done(None, w1)
                },
                Outcome::Failed(error, w1) => Outcome::Failed(error, w1),
                Outcome::Stalled => Outcome::Stalled,
            },
            Stmt::FunctionDeclaration(declaration) => Outcome::Done(
                None,
                w.within(
                    w.environment.define(
                        declaration.name.lexeme@,
                        LoxObjectView::Function(
                            Callable::Function(
                                LoxFunction {
                                    declaration,
                                    closure: w.environment.current,
                                },
                            ),
                        ),
                    ).capture(),
                ),
            ),
            Stmt::Return(statement) => match &statement.value {
                Some(value) => match eval(value, w, less) {
                    Outcome::Done(value, w1) => Outcome::Done(Some(value), w1),
                    Outcome::Failed(error, w1) => Outcome::Failed(error, w1),
                    Outcome::Stalled => Outcome::Stalled,
                },
                None => Outcome::Done(Some(LoxObjectView::Nil), w),
            },
        }
    }
}

/// The effect of the statements from number `from` on, one after the
/// other, up to the first that has a signal.
pub open spec fn exec_list<'a>(stmts: &'a Vec<Stmt>, from: int, w: World<'a>, fuel: nat)
    -> Outcome<'a, Option<LoxObjectView<'a>>>
    decreases fuel,
{
    if fuel == 0 {
        Outcome::Stalled
    } else if from < 0 || from >= stmts.len() {
        Outcome::Done(None, w)
    } else {
        match exec(&stmts[from], w, (fuel - 1) as nat) {
            Outcome::Done(signal, w1) => if signal is Some {
                Outcome::Done(signal, w1)
            } else {
                exec_list(stmts, from + 1, w1, (fuel - 1) as nat)
            },
            other => other,
        }
    }
}

/// The effect of a program: of its statements from number `from` on, one
/// after the other. A `return` outside of a function ends its statement
/// and nothing more.
pub open spec fn exec_program<'a>(stmts: &'a Vec<Stmt>, from: int, w: World<'a>, fuel: nat)
    -> Outcome<'a, ()>
    decreases fuel,
{
    if fuel == 0 {
        Outcome::Stalled
    } else if from < 0 || from >= stmts.len() {
        Outcome::Done((), w)
    } else {
        match exec(&stmts[from], w, (fuel - 1) as nat) {
            Outcome::Done(_, w1) => exec_program(stmts, from + 1, w1, (fuel - 1) as nat),
            Outcome::Failed(error, w1) => Outcome::Failed(error, w1),
            Outcome::Stalled => Outcome::Stalled,
        }
    }
}

/// Short-circuit: where the left operand of `and` is falsey, or that of
/// `or` truthy, the value of the whole is the value of the left operand and
/// the world is the one that the left operand leaves. The right operand is
/// not evaluated: it has no part in the outcome.
pub proof fn lemma_right_operand_is_left_alone<'a>(expr: &'a Expr, w: World<'a>, fuel: nat)
    requires
        fuel > 0,
        expr is Logical,
        eval(&*expr->Logical_0.lhs, w, (fuel - 1) as nat) matches Outcome::Done(left, _)
            && short_circuits(expr->Logical_0.operator@.kind, left),
    ensures
        eval(expr, w, fuel) == eval(&*expr->Logical_0.lhs, w, (fuel - 1) as nat),
{
}

/// Arity: a call with the wrong number of arguments is a runtime error at
/// the closing parenthesis, in the world as the arguments left it. Nothing
/// of the body happens.
pub proof fn lemma_wrong_arity_fails<'a>(
    callable: Callable<'a>,
    args: Seq<LoxObjectView<'a>>,
    paren: TokenView,
    w: World<'a>,
    fuel: nat,
)
    requires
        fuel > 0,
        args.len() != callable.spec_arity(),
    ensures
        apply(LoxObjectView::Function(callable), args, paren, w, fuel) == Outcome::<
            'a,
            LoxObjectView<'a>,
        >::Failed(arity_error(paren, callable.spec_arity() as nat, args.len()), w),
{
}

} // verus!
