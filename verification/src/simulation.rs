//! The machine does what the program means: driven with the answers of the
//! embedding program, it comes, step by step, to the value that the
//! expression at hand has and to the world that its evaluation leaves, and
//! so for statements and their signals.

use crate::callable::{Callable, LoxCallable};
use crate::driving::{
    advance, after_step, arguments_context, arrives, drive, halts, lemma_done_body,
    lemma_done_item, lemma_done_statement, lemma_drive_next, lemma_drive_plus, lemma_enter,
    lemma_enter_block, lemma_enter_simple, lemma_halts_alike, lemma_start, lemma_start_literal,
    lemma_start_variable, lemma_value_argument, lemma_value_assign, lemma_value_branch,
    lemma_value_callee, lemma_value_define, lemma_value_discard, lemma_value_left,
    lemma_value_logical, lemma_value_return, lemma_value_right, lemma_value_test, lemma_value_text,
    lemma_value_unary, list_end, list_frame, placed, program_end, signal_end, value_end, Run,
};
use crate::grammar::{CallExpr, Expr, Stmt};
use crate::machine::{bind_parameters, Configuration, ControlView, Frame};
use crate::object::LoxObjectView;
use crate::operators::{short_circuits, RequestView};
use crate::semantics::{
    apply, eval, eval_args, exec, exec_list, exec_program, print, Outcome, World,
};
use crate::token::TokenView;
use vstd::prelude::*;

verus! {

/// Steps, one more step, and then more steps.
proof fn lemma_chain<'a>(start: Run<'a>, first: nat, mid: Run<'a>, second: nat, end: Run<'a>)
    requires
        drive(start, first) == mid,
        drive(advance(mid), second) == end,
    ensures
        drive(start, first + 1 + second) == end,
{
    lemma_drive_next(mid, second);
    lemma_drive_plus(start, first, 1 + second);
}

/// The machine evaluates: from where it is about to evaluate `expr`, it
/// comes in `steps` steps to where the evaluation of `expr` ends. It then
/// holds the value that `expr` has, in the world that the evaluation
/// leaves, with its stack and its operands as they were; or it is halted by
/// the runtime error that the evaluation meets.
pub proof fn lemma_eval<'a>(expr: &'a Expr, c: Configuration<'a>, w: World<'a>, fuel: nat) -> (steps:
    nat)
    requires
        !(eval(expr, w, fuel) is Stalled),
    ensures
        drive(arrives(c, w, ControlView::Evaluate(expr)), steps) == value_end(
            c,
            eval(expr, w, fuel),
        ),
    decreases fuel, 2nat,
{
    let start = arrives(c, w, ControlView::Evaluate(expr));
    match expr {
        Expr::Literal(_) => {
            lemma_start_literal(c, w, expr);
            lemma_drive_next(start, 0);
            1
        },
        Expr::Variable(_) => {
            lemma_start_variable(c, w, expr);
            lemma_drive_next(start, 0);
            1
        },
        Expr::Grouping(grouping) => {
            lemma_start(c, w, expr);
            let n = lemma_eval(&*grouping.expr, c, w, (fuel - 1) as nat);
            lemma_drive_next(start, n);
            1 + n
        },
        Expr::Assignment(_) => lemma_eval_assignment(expr, c, w, fuel),
        Expr::Unary(_) => lemma_eval_unary(expr, c, w, fuel),
        Expr::Logical(_) => lemma_eval_logical(expr, c, w, fuel),
        Expr::Binary(_) => lemma_eval_binary(expr, c, w, fuel),
        Expr::Call(_) => lemma_eval_call(expr, c, w, fuel),
    }
}

/// The machine evaluates an assignment.
proof fn lemma_eval_assignment<'a>(
    expr: &'a Expr,
    c: Configuration<'a>,
    w: World<'a>,
    fuel: nat,
) -> (steps: nat)
    requires
        expr is Assignment,
        !(eval(expr, w, fuel) is Stalled),
    ensures
        drive(arrives(c, w, ControlView::Evaluate(expr)), steps) == value_end(
            c,
            eval(expr, w, fuel),
        ),
    decreases fuel, 1nat,
{
    let start = arrives(c, w, ControlView::Evaluate(expr));
    let less = (fuel - 1) as nat;
    match expr {
        Expr::Assignment(assignment) => {
            let c1 = c.with_frame(Frame::Assign(assignment));
            lemma_start(c, w, expr);
            let n = lemma_eval(&*assignment.expr, c1, w, less);
            lemma_drive_next(start, n);
            match eval(&*assignment.expr, w, less) {
                Outcome::Done(value, w1) => {
                    lemma_value_assign(c, w1, assignment, value);
                    lemma_chain(
                        start,
                        1 + n,
                        arrives(c1, w1, ControlView::Value(value)),
                        0,
                        value_end(c, eval(expr, w, fuel)),
                    );
                    1 + n + 1
                },
                Outcome::Failed(error, w1) => {
                    lemma_halts_alike(c, c1, error, w1);
                    1 + n
                },
                Outcome::Stalled => 0,
            }
        },
        _ => 0,
    }
}

/// The machine evaluates a prefix operator.
proof fn lemma_eval_unary<'a>(expr: &'a Expr, c: Configuration<'a>, w: World<'a>, fuel: nat) -> (steps:
    nat)
    requires
        expr is Unary,
        !(eval(expr, w, fuel) is Stalled),
    ensures
        drive(arrives(c, w, ControlView::Evaluate(expr)), steps) == value_end(
            c,
            eval(expr, w, fuel),
        ),
    decreases fuel, 1nat,
{
    let start = arrives(c, w, ControlView::Evaluate(expr));
    let less = (fuel - 1) as nat;
    match expr {
        Expr::Unary(unary) => {
            let c1 = c.with_frame(Frame::UnaryApply(unary));
            lemma_start(c, w, expr);
            let n = lemma_eval(&*unary.rhs, c1, w, less);
            lemma_drive_next(start, n);
            match eval(&*unary.rhs, w, less) {
                Outcome::Done(value, w1) => {
                    lemma_value_unary(c, w1, unary, value);
                    lemma_chain(
                        start,
                        1 + n,
                        arrives(c1, w1, ControlView::Value(value)),
                        0,
                        value_end(c, eval(expr, w, fuel)),
                    );
                    1 + n + 1
                },
                Outcome::Failed(error, w1) => {
                    lemma_halts_alike(c, c1, error, w1);
                    1 + n
                },
                Outcome::Stalled => 0,
            }
        },
        _ => 0,
    }
}

/// The machine evaluates `and` and `or`.
proof fn lemma_eval_logical<'a>(expr: &'a Expr, c: Configuration<'a>, w: World<'a>, fuel: nat)
    -> (steps: nat)
    requires
        expr is Logical,
        !(eval(expr, w, fuel) is Stalled),
    ensures
        drive(arrives(c, w, ControlView::Evaluate(expr)), steps) == value_end(
            c,
            eval(expr, w, fuel),
        ),
    decreases fuel, 1nat,
{
    let start = arrives(c, w, ControlView::Evaluate(expr));
    let less = (fuel - 1) as nat;
    match expr {
        Expr::Logical(binary) => {
            let c1 = c.with_frame(Frame::LogicalRight(binary));
            lemma_start(c, w, expr);
            let n = lemma_eval(&*binary.lhs, c1, w, less);
            lemma_drive_next(start, n);
            match eval(&*binary.lhs, w, less) {
                Outcome::Done(left, w1) => {
                    let mid = arrives(c1, w1, ControlView::Value(left));
                    lemma_value_logical(c, w1, binary, left);
                    if short_circuits(binary.operator@.kind, left) {
                        lemma_chain(start, 1 + n, mid, 0, value_end(c, eval(expr, w, fuel)));
                        1 + n + 1
                    } else {
                        let m = lemma_eval(&*binary.rhs, c, w1, less);
                        lemma_chain(start, 1 + n, mid, m, value_end(c, eval(expr, w, fuel)));
                        1 + n + 1 + m
                    }
                },
                Outcome::Failed(error, w1) => {
                    lemma_halts_alike(c, c1, error, w1);
                    1 + n
                },
                Outcome::Stalled => 0,
            }
        },
        _ => 0,
    }
}

/// The machine evaluates a binary operator.
proof fn lemma_eval_binary<'a>(expr: &'a Expr, c: Configuration<'a>, w: World<'a>, fuel: nat)
    -> (steps: nat)
    requires
        expr is Binary,
        !(eval(expr, w, fuel) is Stalled),
    ensures
        drive(arrives(c, w, ControlView::Evaluate(expr)), steps) == value_end(
            c,
            eval(expr, w, fuel),
        ),
    decreases fuel, 1nat,
{
    let start = arrives(c, w, ControlView::Evaluate(expr));
    let less = (fuel - 1) as nat;
    match expr {
        Expr::Binary(binary) => {
            let c1 = c.with_frame(Frame::BinaryRight(binary));
            lemma_start(c, w, expr);
            let n = lemma_eval(&*binary.lhs, c1, w, less);
            lemma_drive_next(start, n);
            match eval(&*binary.lhs, w, less) {
                Outcome::Done(left, w1) => {
                    let mid = arrives(c1, w1, ControlView::Value(left));
                    let c2 = c.with_operand(left).with_frame(Frame::BinaryApply(binary));
                    lemma_value_left(c, w1, binary, left);
                    let m = lemma_eval(&*binary.rhs, c2, w1, less);
                    lemma_chain(
                        start,
                        1 + n,
                        mid,
                        m,
                        value_end(c2, eval(&*binary.rhs, w1, less)),
                    );
                    match eval(&*binary.rhs, w1, less) {
                        Outcome::Done(right, w2) => {
                            lemma_value_right(c, w2, binary, left, right);
                            lemma_chain(
                                start,
                                1 + n + 1 + m,
                                arrives(c2, w2, ControlView::Value(right)),
                                0,
                                value_end(c, eval(expr, w, fuel)),
                            );
                            1 + n + 1 + m + 1
                        },
                        Outcome::Failed(error, w2) => {
                            lemma_halts_alike(c, c2, error, w2);
                            1 + n + 1 + m
                        },
                        Outcome::Stalled => 0,
                    }
                },
                Outcome::Failed(error, w1) => {
                    lemma_halts_alike(c, c1, error, w1);
                    1 + n
                },
                Outcome::Stalled => 0,
            }
        },
        _ => 0,
    }
}

/// The machine evaluates the arguments of a call: it comes to where it
/// holds the value of the last one, with the callee and the values of the
/// others put aside in order.
proof fn lemma_eval_args<'a>(
    call: &'a CallExpr,
    callee: LoxObjectView<'a>,
    done: Seq<LoxObjectView<'a>>,
    c: Configuration<'a>,
    w: World<'a>,
    fuel: nat,
) -> (steps: nat)
    requires
        done.len() < call.args.len(),
        !(eval_args(&call.args, done.len() as int, done, w, fuel) is Stalled),
    ensures
        match eval_args(&call.args, done.len() as int, done, w, fuel) {
            Outcome::Done(args, w1) => args.len() == call.args.len() && drive(
                arrives(
                    arguments_context(c, call, callee, done),
                    w,
                    ControlView::Evaluate(&call.args[done.len() as int]),
                ),
                steps,
            ) == arrives(
                arguments_context(c, call, callee, args.drop_last()),
                w1,
                ControlView::Value(args.last()),
            ),
            Outcome::Failed(error, w1) => drive(
                arrives(
                    arguments_context(c, call, callee, done),
                    w,
                    ControlView::Evaluate(&call.args[done.len() as int]),
                ),
                steps,
            ) == halts(c, error, w1),
            Outcome::Stalled => true,
        },
    decreases fuel, 1nat,
{
    let from = done.len() as int;
    let context = arguments_context(c, call, callee, done);
    let start = arrives(context, w, ControlView::Evaluate(&call.args[from]));
    let less = (fuel - 1) as nat;
    let n = lemma_eval(&call.args[from], context, w, less);
    match eval(&call.args[from], w, less) {
        Outcome::Done(value, w1) => {
            let mid = arrives(context, w1, ControlView::Value(value));
            let more = done.push(value);
            if from + 1 < call.args.len() {
                lemma_value_argument(c, w1, call, callee, done, value);
                let m = lemma_eval_args(call, callee, more, c, w1, less);
                lemma_drive_next(mid, m);
                lemma_drive_plus(start, n, 1 + m);
                n + (1 + m)
            } else {
                assert(more.drop_last() =~= done);
                n
            }
        },
        Outcome::Failed(error, w1) => {
            lemma_halts_alike(c, context, error, w1);
            n
        },
        Outcome::Stalled => 0,
    }
}

/// The machine prints: from the step that prints `value`, it comes to
/// where the call of `print` has its value.
proof fn lemma_print<'a>(
    run: Run<'a>,
    value: LoxObjectView<'a>,
    c: Configuration<'a>,
    w: World<'a>,
    fuel: nat,
) -> (steps: nat)
    requires
        run.answers == w.answers,
        run.actions == w.actions,
        !(print(value, w, fuel) is Stalled),
    ensures
        drive(after_step(run, placed(c, w).print(value)), steps) == value_end(
            c,
            print(value, w, fuel),
        ),
    decreases fuel, 0nat,
{
    match value {
        LoxObjectView::Number(number) => {
            let w1 = w.request(RequestView::Format(number))->Done_1;
            let text = w.answers[0];
            let mid = arrives(c.with_frame(Frame::PrintText), w1, ControlView::Value(text));
            assert(after_step(run, placed(c, w).print(value)) == mid);
            lemma_value_text(c, w1, text);
            let n = lemma_print(mid, text, c, w1, (fuel - 1) as nat);
            lemma_drive_next(mid, n);
            1 + n
        },
        _ => {
            lemma_drive_next(after_step(run, placed(c, w).print(value)), 0);
            0
        },
    }
}

/// The machine runs the statements of a block or of a body: from where
/// their frame is told to go on with the statement of number `from`, it
/// comes to where the frame is done and has left its scope.
proof fn lemma_exec_list<'a>(
    stmts: &'a Vec<Stmt>,
    from: int,
    call: bool,
    restore: usize,
    c: Configuration<'a>,
    w: World<'a>,
    fuel: nat,
) -> (steps: nat)
    requires
        0 <= from <= stmts.len(),
        !(exec_list(stmts, from, w, fuel) is Stalled),
    ensures
        drive(
            arrives(
                c.with_frame(list_frame(stmts, from, call, restore)),
                w,
                ControlView::Completed(None),
            ),
            steps,
        ) == list_end(c, exec_list(stmts, from, w, fuel), call, restore),
    decreases fuel, 3nat,
{
    let start = arrives(
        c.with_frame(list_frame(stmts, from, call, restore)),
        w,
        ControlView::Completed(None),
    );
    let less = (fuel - 1) as nat;
    lemma_done_item(c, w, stmts, from, call, restore, None);
    if from >= stmts.len() {
        lemma_drive_next(start, 0);
        1
    } else {
        let c1 = c.with_frame(list_frame(stmts, from + 1, call, restore));
        let n = lemma_exec(&stmts[from], c1, w, less);
        lemma_drive_next(start, n);
        match exec(&stmts[from], w, less) {
            Outcome::Done(signal, w1) => {
                let mid = arrives(c1, w1, ControlView::Completed(signal));
                if signal is Some {
                    lemma_done_item(c, w1, stmts, from + 1, call, restore, signal);
                    lemma_chain(
                        start,
                        1 + n,
                        mid,
                        0,
                        list_end(c, exec_list(stmts, from, w, fuel), call, restore),
                    );
                    1 + n + 1
                } else {
                    let m = lemma_exec_list(stmts, from + 1, call, restore, c, w1, less);
                    lemma_drive_plus(start, 1 + n, m);
                    1 + n + m
                }
            },
            Outcome::Failed(error, w1) => {
                lemma_halts_alike(c, c1, error, w1);
                1 + n
            },
            Outcome::Stalled => 0,
        }
    }
}

/// The machine calls: from the step that calls `callee`, it comes to where
/// the call has its value.
proof fn lemma_apply<'a>(
    run: Run<'a>,
    callee: LoxObjectView<'a>,
    args: Seq<LoxObjectView<'a>>,
    paren: TokenView,
    c: Configuration<'a>,
    w: World<'a>,
    fuel: nat,
) -> (steps: nat)
    requires
        run.answers == w.answers,
        run.actions == w.actions,
        !(apply(callee, args, paren, w, fuel) is Stalled),
    ensures
        drive(after_step(run, placed(c, w).call(callee, args, paren)), steps) == value_end(
            c,
            apply(callee, args, paren, w, fuel),
        ),
    decreases fuel, 4nat,
{
    let less = (fuel - 1) as nat;
    let first = after_step(run, placed(c, w).call(callee, args, paren));
    lemma_drive_next(first, 0);
    match callee {
        LoxObjectView::Function(callable) => {
            if args.len() != callable.spec_arity() {
                0
            } else {
                match callable {
                    Callable::Print(_) => lemma_print(run, args[0], c, w, less),
                    Callable::Function(function) => {
                        let restore = w.environment.current;
                        let inside = w.within(
                            bind_parameters(
                                w.environment.enter(function.closure),
                                function.declaration.params@,
                                args,
                                0,
                            ),
                        );
                        let body = &function.declaration.body;
                        assert(first == arrives(
                            c.with_frame(list_frame(body, 0, true, restore)),
                            inside,
                            ControlView::Completed(None),
                        ));
                        lemma_exec_list(body, 0, true, restore, c, inside, less)
                    },
                    _ => 0,
                }
            }
        },
        _ => 0,
    }
}

/// The machine evaluates a call.
proof fn lemma_eval_call<'a>(expr: &'a Expr, c: Configuration<'a>, w: World<'a>, fuel: nat) -> (steps:
    nat)
    requires
        expr is Call,
        !(eval(expr, w, fuel) is Stalled),
    ensures
        drive(arrives(c, w, ControlView::Evaluate(expr)), steps) == value_end(
            c,
            eval(expr, w, fuel),
        ),
    decreases fuel, 1nat,
{
    let start = arrives(c, w, ControlView::Evaluate(expr));
    let less = (fuel - 1) as nat;
    match expr {
        Expr::Call(call) => {
            let c1 = c.with_frame(Frame::Callee(call));
            lemma_start(c, w, expr);
            let n = lemma_eval(&*call.callee, c1, w, less);
            lemma_drive_next(start, n);
            match eval(&*call.callee, w, less) {
                Outcome::Done(callee, w1) => {
                    let mid = arrives(c1, w1, ControlView::Value(callee));
                    lemma_value_callee(c, w1, call, callee);
                    if call.args.len() == 0 {
                        let m = lemma_apply(
                            mid,
                            callee,
                            Seq::empty(),
                            call.closing_paren@,
                            c,
                            w1,
                            less,
                        );
                        lemma_chain(start, 1 + n, mid, m, value_end(c, eval(expr, w, fuel)));
                        1 + n + 1 + m
                    } else {
                        let m = lemma_eval_args(call, callee, Seq::empty(), c, w1, less);
                        match eval_args(&call.args, 0, Seq::empty(), w1, less) {
                            Outcome::Done(args, w2) => {
                                let last = arrives(
                                    arguments_context(c, call, callee, args.drop_last()),
                                    w2,
                                    ControlView::Value(args.last()),
                                );
                                lemma_chain(start, 1 + n, mid, m, last);
                                lemma_value_argument(
                                    c,
                                    w2,
                                    call,
                                    callee,
                                    args.drop_last(),
                                    args.last(),
                                );
                                assert(args.drop_last().push(args.last()) =~= args);
                                let k = lemma_apply(
                                    last,
                                    callee,
                                    args,
                                    call.closing_paren@,
                                    c,
                                    w2,
                                    less,
                                );
                                lemma_chain(
                                    start,
                                    1 + n + 1 + m,
                                    last,
                                    k,
                                    value_end(c, eval(expr, w, fuel)),
                                );
                                1 + n + 1 + m + 1 + k
                            },
                            Outcome::Failed(error, w2) => {
                                lemma_chain(start, 1 + n, mid, m, halts(c, error, w2));
                                1 + n + 1 + m
                            },
                            Outcome::Stalled => 0,
                        }
                    }
                },
                Outcome::Failed(error, w1) => {
                    lemma_halts_alike(c, c1, error, w1);
                    1 + n
                },
                Outcome::Stalled => 0,
            }
        },
        _ => 0,
    }
}

/// The machine executes: from where it is about to execute `stmt`, it
/// comes in `steps` steps, at least one, to where the execution of `stmt`
/// ends. It is then about to pass on the signal that `stmt` has, in the
/// world that the execution leaves, with its stack and its operands as they
/// were; or it is halted by the runtime error that the execution meets.
pub proof fn lemma_exec<'a>(stmt: &'a Stmt, c: Configuration<'a>, w: World<'a>, fuel: nat) -> (steps:
    nat)
    requires
        !(exec(stmt, w, fuel) is Stalled),
    ensures
        steps >= 1,
        drive(arrives(c, w, ControlView::Execute(stmt)), steps) == signal_end(
            c,
            exec(stmt, w, fuel),
        ),
    decreases fuel, 2nat,
{
    let start = arrives(c, w, ControlView::Execute(stmt));
    let less = (fuel - 1) as nat;
    match stmt {
        Stmt::Expression(_) => lemma_exec_value(stmt, c, w, fuel),
        Stmt::VariableDeclaration(declaration) => {
            if declaration.initializer is Some {
                lemma_exec_value(stmt, c, w, fuel)
            } else {
                lemma_enter_simple(c, w, stmt);
                lemma_drive_next(start, 0);
                1
            }
        },
        Stmt::Return(statement) => {
            if statement.value is Some {
                lemma_exec_value(stmt, c, w, fuel)
            } else {
                lemma_enter_simple(c, w, stmt);
                lemma_drive_next(start, 0);
                1
            }
        },
        Stmt::FunctionDeclaration(_) => {
            lemma_enter_simple(c, w, stmt);
            lemma_drive_next(start, 0);
            1
        },
        Stmt::Block(block) => {
            let restore = w.environment.current;
            let inside = w.within(w.environment.enter(w.environment.current));
            lemma_enter_block(c, w, stmt);
            let n = lemma_exec_list(&block.body, 0, false, restore, c, inside, less);
            lemma_drive_next(start, n);
            1 + n
        },
        Stmt::If(_) => lemma_exec_if(stmt, c, w, fuel),
        Stmt::While(_) => lemma_exec_while(stmt, c, w, fuel),
    }
}

/// The machine executes a statement that evaluates one expression and is
/// done: an expression statement, a variable declaration, a `return`.
proof fn lemma_exec_value<'a>(stmt: &'a Stmt, c: Configuration<'a>, w: World<'a>, fuel: nat) -> (steps:
    nat)
    requires
        stmt is Expression || (stmt is VariableDeclaration
            && stmt->VariableDeclaration_0.initializer is Some) || (stmt is Return
            && stmt->Return_0.value is Some),
        !(exec(stmt, w, fuel) is Stalled),
    ensures
        steps >= 1,
        drive(arrives(c, w, ControlView::Execute(stmt)), steps) == signal_end(
            c,
            exec(stmt, w, fuel),
        ),
    decreases fuel, 1nat,
{
    let start = arrives(c, w, ControlView::Execute(stmt));
    let less = (fuel - 1) as nat;
    let opening = crate::driving::entering(stmt);
    let frame = opening.frame->0;
    let c1 = c.with_frame(frame);
    lemma_enter(c, w, stmt);
    let n = lemma_eval(opening.part, c1, w, less);
    lemma_drive_next(start, n);
    match eval(opening.part, w, less) {
        Outcome::Done(value, w1) => {
            match stmt {
                Stmt::Expression(_) => {
                    lemma_value_discard(c, w1, value);
                },
                Stmt::VariableDeclaration(declaration) => {
                    lemma_value_define(c, w1, declaration, value);
                },
                _ => {
                    lemma_value_return(c, w1, value);
                },
            }
            lemma_chain(
                start,
                1 + n,
                arrives(c1, w1, ControlView::Value(value)),
                0,
                signal_end(c, exec(stmt, w, fuel)),
            );
            1 + n + 1
        },
        Outcome::Failed(error, w1) => {
            lemma_halts_alike(c, c1, error, w1);
            1 + n
        },
        Outcome::Stalled => 1,
    }
}

/// The machine executes an `if`.
proof fn lemma_exec_if<'a>(stmt: &'a Stmt, c: Configuration<'a>, w: World<'a>, fuel: nat) -> (steps:
    nat)
    requires
        stmt is If,
        !(exec(stmt, w, fuel) is Stalled),
    ensures
        steps >= 1,
        drive(arrives(c, w, ControlView::Execute(stmt)), steps) == signal_end(
            c,
            exec(stmt, w, fuel),
        ),
    decreases fuel, 1nat,
{
    let start = arrives(c, w, ControlView::Execute(stmt));
    let less = (fuel - 1) as nat;
    match stmt {
        Stmt::If(statement) => {
            let c1 = c.with_frame(Frame::Branch(statement));
            lemma_enter(c, w, stmt);
            let n = lemma_eval(&statement.condition, c1, w, less);
            lemma_drive_next(start, n);
            match eval(&statement.condition, w, less) {
                Outcome::Done(condition, w1) => {
                    let mid = arrives(c1, w1, ControlView::Value(condition));
                    let end = signal_end(c, exec(stmt, w, fuel));
                    lemma_value_branch(c, w1, statement, condition);
                    if condition.is_truthy() {
                        let m = lemma_exec(&*statement.then_branch, c, w1, less);
                        lemma_chain(start, 1 + n, mid, m, end);
                        1 + n + 1 + m
                    } else {
                        match &statement.else_branch {
                            Some(branch) => {
                                let m = lemma_exec(&**branch, c, w1, less);
                                lemma_chain(start, 1 + n, mid, m, end);
                                1 + n + 1 + m
                            },
                            None => {
                                lemma_chain(start, 1 + n, mid, 0, end);
                                1 + n + 1
                            },
                        }
                    }
                },
                Outcome::Failed(error, w1) => {
                    lemma_halts_alike(c, c1, error, w1);
                    1 + n
                },
                Outcome::Stalled => 1,
            }
        },
        _ => 1,
    }
}

/// The machine executes a `while`.
proof fn lemma_exec_while<'a>(stmt: &'a Stmt, c: Configuration<'a>, w: World<'a>, fuel: nat) -> (steps:
    nat)
    requires
        stmt is While,
        !(exec(stmt, w, fuel) is Stalled),
    ensures
        steps >= 1,
        drive(arrives(c, w, ControlView::Execute(stmt)), steps) == signal_end(
            c,
            exec(stmt, w, fuel),
        ),
    decreases fuel, 1nat,
{
    let start = arrives(c, w, ControlView::Execute(stmt));
    let less = (fuel - 1) as nat;
    match stmt {
        Stmt::While(statement) => {
            let c1 = c.with_frame(Frame::LoopTest(statement));
            lemma_enter(c, w, stmt);
            let n = lemma_eval(&statement.condition, c1, w, less);
            lemma_drive_next(start, n);
            match eval(&statement.condition, w, less) {
                Outcome::Done(condition, w1) => {
                    let mid = arrives(c1, w1, ControlView::Value(condition));
                    let end = signal_end(c, exec(stmt, w, fuel));
                    lemma_value_test(c, w1, statement, condition);
                    if condition.is_truthy() {
                        let m = lemma_exec_body(stmt, c, w1, less);
                        lemma_chain(start, 1 + n, mid, m, end);
                        1 + n + 1 + m
                    } else {
                        lemma_chain(start, 1 + n, mid, 0, end);
                        1 + n + 1
                    }
                },
                Outcome::Failed(error, w1) => {
                    lemma_halts_alike(c, c1, error, w1);
                    1 + n
                },
                Outcome::Stalled => 1,
            }
        },
        _ => 1,
    }
}

/// What the body of a `while` and the rounds after it come to, when the
/// condition was truthy.
pub open spec fn round<'a>(stmt: &'a Stmt, w: World<'a>, fuel: nat) -> Outcome<
    'a,
    Option<LoxObjectView<'a>>,
> {
    match exec(&*stmt->While_0.body, w, fuel) {
        Outcome::Done(signal, w1) => if signal is Some {
            Outcome::Done(signal, w1)
        } else {
            exec(stmt, w1, fuel)
        },
        other => other,
    }
}

/// The machine executes the body of a `while`, and the rounds after it.
proof fn lemma_exec_body<'a>(stmt: &'a Stmt, c: Configuration<'a>, w: World<'a>, fuel: nat) -> (steps:
    nat)
    requires
        stmt is While,
        !(round(stmt, w, fuel) is Stalled),
    ensures
        drive(
            arrives(
                c.with_frame(Frame::LoopBody(&stmt->While_0)),
                w,
                ControlView::Execute(&*stmt->While_0.body),
            ),
            steps,
        ) == signal_end(c, round(stmt, w, fuel)),
    decreases fuel, 3nat,
{
    match stmt {
        Stmt::While(statement) => {
            let c2 = c.with_frame(Frame::LoopBody(statement));
            let start = arrives(c2, w, ControlView::Execute(&*statement.body));
            let n = lemma_exec(&*statement.body, c2, w, fuel);
            match exec(&*statement.body, w, fuel) {
                Outcome::Done(signal, w1) => {
                    let last = arrives(c2, w1, ControlView::Completed(signal));
                    let end = signal_end(c, round(stmt, w, fuel));
                    lemma_done_body(c, w1, statement, signal);
                    if signal is Some {
                        lemma_chain(start, n, last, 0, end);
                        n + 1
                    } else {
                        let again = arrives(c, w1, ControlView::Execute(stmt));
                        let k = lemma_exec(stmt, c, w1, fuel);
                        lemma_enter(c, w1, stmt);
                        assert(advance(last) == advance(again));
                        lemma_drive_next(again, (k - 1) as nat);
                        lemma_chain(start, n, last, (k - 1) as nat, end);
                        n + 1 + (k - 1) as nat
                    }
                },
                Outcome::Failed(error, w1) => {
                    lemma_halts_alike(c, c2, error, w1);
                    n
                },
                Outcome::Stalled => 0,
            }
        },
        _ => 0,
    }
}

/// The machine runs a program: from where the frame of the program is told
/// to go on with the statement of number `from`, it comes to the end of the
/// program.
proof fn lemma_exec_program<'a>(
    stmts: &'a Vec<Stmt>,
    from: int,
    c: Configuration<'a>,
    w: World<'a>,
    signal: Option<LoxObjectView<'a>>,
    fuel: nat,
) -> (steps: nat)
    requires
        0 <= from <= stmts.len(),
        !(exec_program(stmts, from, w, fuel) is Stalled),
    ensures
        drive(
            arrives(
                c.with_frame(Frame::Program { statements: stmts, next: from as usize }),
                w,
                ControlView::Completed(signal),
            ),
            steps,
        ) == program_end(c, exec_program(stmts, from, w, fuel)),
    decreases fuel, 3nat,
{
    let start = arrives(
        c.with_frame(Frame::Program { statements: stmts, next: from as usize }),
        w,
        ControlView::Completed(signal),
    );
    let less = (fuel - 1) as nat;
    lemma_done_statement(c, w, stmts, from, signal);
    if from >= stmts.len() {
        lemma_drive_next(start, 0);
        1
    } else {
        let c1 = c.with_frame(Frame::Program { statements: stmts, next: (from + 1) as usize });
        let n = lemma_exec(&stmts[from], c1, w, less);
        lemma_drive_next(start, n);
        match exec(&stmts[from], w, less) {
            Outcome::Done(passed, w1) => {
                let m = lemma_exec_program(stmts, from + 1, c, w1, passed, less);
                lemma_drive_plus(start, 1 + n, m);
                1 + n + m
            },
            Outcome::Failed(error, w1) => {
                lemma_halts_alike(c, c1, error, w1);
                1 + n
            },
            Outcome::Stalled => 0,
        }
    }
}

/// The machine does what the program means. A machine that has been
/// loaded with a program and is driven with the answers of the embedding
/// program comes to the end of the program with the variables as the
/// program leaves them, having asked and told the embedding program what
/// the program asks and tells, in that order; or it is halted by the
/// runtime error that the program meets, and has reported it.
pub proof fn lemma_machine_runs_program<'a>(
    c: Configuration<'a>,
    stmts: &'a Vec<Stmt>,
    answers: Seq<LoxObjectView<'a>>,
    fuel: nat,
) -> (steps: nat)
    requires
        !(exec_program(
            stmts,
            0,
            World { environment: c.environment.home(), answers, actions: Seq::empty() },
            fuel,
        ) is Stalled),
    ensures
        drive(Run { configuration: c.load(stmts), answers, actions: Seq::empty() }, steps)
            == program_end(
            c.halted(),
            exec_program(
                stmts,
                0,
                World { environment: c.environment.home(), answers, actions: Seq::empty() },
                fuel,
            ),
        ),
{
    let w = World { environment: c.environment.home(), answers, actions: Seq::empty() };
    let empty = c.halted();
    assert(c.load(stmts).frames =~= empty.with_frame(
        Frame::Program { statements: stmts, next: 0 },
    ).frames);
    lemma_exec_program(stmts, 0, empty, w, None, fuel)
}

} // verus!
