//! A machine that is driven: every step of it, with what the embedding
//! program is asked answered at once. One lemma for each step that the
//! machine can take says where the step leads.

use crate::error::runtime_error::RuntimeErrorView;
use crate::environment::undefined_variable;
use crate::grammar::{
    AssignmentExpr, BinaryExpr, CallExpr, Expr, IfStmt, Stmt, UnaryExpr,
    VariableDeclarationStmt, WhileStmt,
};
use crate::callable::Callable;
use crate::function::LoxFunction;
use crate::machine::{ActionView, Configuration, ControlView, Frame, Step};
use crate::object::LoxObjectView;
use crate::operators::{
    binary_value, literal_value, short_circuits, unary_value, EvaluationView,
};
use crate::semantics::{Outcome, World};
use vstd::prelude::*;

verus! {

/// A machine together with the embedding program that drives it: the
/// answers that the program will give, the next one first, and what it has
/// been asked and told so far.
pub struct Run<'a> {
    pub configuration: Configuration<'a>,
    pub answers: Seq<LoxObjectView<'a>>,
    pub actions: Seq<ActionView>,
}

/// The run after the step `step` of its machine: what the step asks or
/// tells is noted, and what it asks is answered at once, as long as there
/// are answers.
pub open spec fn after_step<'a>(run: Run<'a>, step: Step<'a>) -> Run<'a> {
    match step.action {
        ActionView::Continue => Run { configuration: step.next, ..run },
        ActionView::Ask(_) => if run.answers.len() > 0 {
            Run {
                configuration: step.next.answer(run.answers[0]),
                answers: run.answers.drop_first(),
                actions: run.actions.push(step.action),
            }
        } else {
            Run { configuration: step.next, actions: run.actions.push(step.action), ..run }
        },
        _ => Run { configuration: step.next, actions: run.actions.push(step.action), ..run },
    }
}

/// The run after one step of its machine.
#[verifier::opaque]
pub open spec fn advance<'a>(run: Run<'a>) -> Run<'a> {
    after_step(run, run.configuration.step())
}

/// The run after `steps` steps of its machine.
pub open spec fn drive<'a>(run: Run<'a>, steps: nat) -> Run<'a>
    decreases steps,
{
    if steps == 0 {
        run
    } else {
        drive(advance(run), (steps - 1) as nat)
    }
}

/// The configuration `c` in the environment of the world `w`, with nothing
/// at hand.
pub open spec fn placed<'a>(c: Configuration<'a>, w: World<'a>) -> Configuration<'a> {
    Configuration { environment: w.environment, control: ControlView::Idle, ..c }
}

/// The run of a machine in the world `w` whose stack, operands and reports
/// are those of `c` and whose control is `control`.
pub open spec fn arrives<'a>(c: Configuration<'a>, w: World<'a>, control: ControlView<'a>) -> Run<
    'a,
> {
    Run {
        configuration: Configuration { environment: w.environment, control, ..c },
        answers: w.answers,
        actions: w.actions,
    }
}

/// The run of a machine that the runtime error `error` has halted in the
/// world `w`.
pub open spec fn halts<'a>(c: Configuration<'a>, error: RuntimeErrorView, w: World<'a>) -> Run<
    'a,
> {
    Run {
        configuration: placed(c, w).fail(error).next,
        answers: w.answers,
        actions: w.actions.push(ActionView::Fail(error)),
    }
}

/// Where the machine is when an evaluation in the context `c` has come to
/// the outcome `outcome`: about to hand the value to the frame on top, or
/// halted.
pub open spec fn value_end<'a>(c: Configuration<'a>, outcome: Outcome<'a, LoxObjectView<'a>>)
    -> Run<'a> {
    match outcome {
        Outcome::Done(value, w) => arrives(c, w, ControlView::Value(value)),
        Outcome::Failed(error, w) => halts(c, error, w),
        Outcome::Stalled => arbitrary(),
    }
}

/// Where the machine is when an execution in the context `c` has come to
/// the outcome `outcome`: about to tell the frame on top that the
/// statement is done, or halted.
pub open spec fn signal_end<'a>(
    c: Configuration<'a>,
    outcome: Outcome<'a, Option<LoxObjectView<'a>>>,
) -> Run<'a> {
    match outcome {
        Outcome::Done(signal, w) => arrives(c, w, ControlView::Completed(signal)),
        Outcome::Failed(error, w) => halts(c, error, w),
        Outcome::Stalled => arbitrary(),
    }
}

/// What a frame that runs statements leaves when they are done: a block
/// passes the signal on, a call has its value. Both are back in the scope
/// `restore`.
pub open spec fn list_end<'a>(
    c: Configuration<'a>,
    outcome: Outcome<'a, Option<LoxObjectView<'a>>>,
    call: bool,
    restore: usize,
) -> Run<'a> {
    match outcome {
        Outcome::Done(signal, w) => arrives(
            c,
            w.within(w.environment.leave(restore)),
            if call {
                ControlView::Value(
                    match signal {
                        Some(value) => value,
                        None => LoxObjectView::Nil,
                    },
                )
            } else {
                ControlView::Completed(signal)
            },
        ),
        Outcome::Failed(error, w) => halts(c, error, w),
        Outcome::Stalled => arbitrary(),
    }
}

/// Where the machine is when a program has come to the outcome `outcome`:
/// idle, or halted.
pub open spec fn program_end<'a>(c: Configuration<'a>, outcome: Outcome<'a, ()>) -> Run<'a> {
    match outcome {
        Outcome::Done(_, w) => Run {
            configuration: placed(c, w),
            answers: w.answers,
            actions: w.actions.push(ActionView::Finished),
        },
        Outcome::Failed(error, w) => halts(c, error, w),
        Outcome::Stalled => arbitrary(),
    }
}

/// The frame of a block or of a call that is about to run the statement of
/// number `next`.
pub open spec fn list_frame<'a>(stmts: &'a Vec<Stmt>, next: int, call: bool, restore: usize)
    -> Frame<'a> {
    if call {
        Frame::Call { body: stmts, next: next as usize, caller: restore }
    } else {
        Frame::Block { body: stmts, next: next as usize, enclosing: restore }
    }
}

/// The stack and the operands of a machine that evaluates the arguments of
/// `call`, when the values `done` of the first ones are there: the callee
/// and those values are put aside, and the frame on top knows the number of
/// the argument at hand.
pub open spec fn arguments_context<'a>(
    c: Configuration<'a>,
    call: &'a CallExpr,
    callee: LoxObjectView<'a>,
    done: Seq<LoxObjectView<'a>>,
) -> Configuration<'a> {
    Configuration {
        frames: c.frames.push(Frame::Argument(call, done.len() as usize)),
        operands: c.operands.push(callee) + done,
        ..c
    }
}

/// Steps add up.
pub proof fn lemma_drive_plus<'a>(run: Run<'a>, first: nat, second: nat)
    ensures
        drive(run, first + second) == drive(drive(run, first), second),
    decreases first,
{
    if first > 0 {
        lemma_drive_plus(advance(run), (first - 1) as nat, second);
    }
}

/// One step and then more steps.
pub proof fn lemma_drive_next<'a>(run: Run<'a>, steps: nat)
    ensures
        drive(run, 1 + steps) == drive(advance(run), steps),
        drive(run, 0) == run,
{
}

/// A halted machine is the same whatever was on its stack.
pub proof fn lemma_halts_alike<'a>(
    c: Configuration<'a>,
    d: Configuration<'a>,
    error: RuntimeErrorView,
    w: World<'a>,
)
    requires
        d.reports == c.reports,
        d.had_error == c.had_error,
    ensures
        halts(d, error, w) == halts(c, error, w),
{
}

/// The step that follows an evaluation brings the machine where the
/// evaluation ends.
pub proof fn lemma_settle<'a>(
    run: Run<'a>,
    c: Configuration<'a>,
    w: World<'a>,
    evaluation: EvaluationView<'a>,
)
    requires
        run.answers == w.answers,
        run.actions == w.actions,
        !(w.settle(evaluation) is Stalled),
    ensures
        after_step(run, placed(c, w).settle(evaluation)) == value_end(c, w.settle(evaluation)),
{
}

/// A frame that is put on the stack and taken off again leaves the stack as
/// it was.
pub proof fn lemma_frame<'a>(c: Configuration<'a>, w: World<'a>, frame: Frame<'a>)
    ensures
        placed(c.with_frame(frame), w).without_frame() == placed(c, w),
        placed(c.with_frame(frame), w).frames.last() == frame,
        placed(c.with_frame(frame), w).frames.len() > 0,
{
    assert(c.frames.push(frame).drop_last() =~= c.frames);
}

/// Starting on a literal: the machine has its value, or asks for it.
pub proof fn lemma_start_literal<'a>(c: Configuration<'a>, w: World<'a>, expr: &'a Expr)
    requires
        expr is Literal,
        !(w.settle(literal_value(expr->Literal_0.token@)) is Stalled),
    ensures
        advance(arrives(c, w, ControlView::Evaluate(expr))) == value_end(
            c,
            w.settle(literal_value(expr->Literal_0.token@)),
        ),
{
    reveal(advance);
    lemma_settle(
        arrives(c, w, ControlView::Evaluate(expr)),
        c,
        w,
        literal_value(expr->Literal_0.token@),
    );
}

/// Starting on a variable: the machine has its value, or is halted.
pub proof fn lemma_start_variable<'a>(c: Configuration<'a>, w: World<'a>, expr: &'a Expr)
    requires
        expr is Variable,
    ensures
        advance(arrives(c, w, ControlView::Evaluate(expr))) == match w.environment.get(
            expr->Variable_0.name.lexeme@,
        ) {
            Some(value) => arrives(c, w, ControlView::Value(value)),
            None => halts(c, undefined_variable(expr->Variable_0.name@), w),
        },
{
    reveal(advance);
}

/// What the first step of an expression or a statement leaves: a frame on
/// the stack, if any, and the part to evaluate.
pub struct Opening<'a> {
    pub frame: Option<Frame<'a>>,
    pub part: &'a Expr,
}

/// The frame that an expression leaves on the stack when the machine
/// starts on it, and the expression that the machine goes on to evaluate.
pub open spec fn opening<'a>(expr: &'a Expr) -> Opening<'a> {
    match expr {
        Expr::Binary(binary) => Opening {
            frame: Some(Frame::BinaryRight(binary)),
            part: &*binary.lhs,
        },
        Expr::Grouping(grouping) => Opening { frame: None, part: &*grouping.expr },
        Expr::Unary(unary) => Opening { frame: Some(Frame::UnaryApply(unary)), part: &*unary.rhs },
        Expr::Assignment(assignment) => Opening {
            frame: Some(Frame::Assign(assignment)),
            part: &*assignment.expr,
        },
        Expr::Logical(binary) => Opening {
            frame: Some(Frame::LogicalRight(binary)),
            part: &*binary.lhs,
        },
        Expr::Call(call) => Opening { frame: Some(Frame::Callee(call)), part: &*call.callee },
        _ => Opening { frame: None, part: expr },
    }
}

/// Starting on an expression that has a part to evaluate first: the
/// machine leaves a frame and goes on to the part.
pub proof fn lemma_start<'a>(c: Configuration<'a>, w: World<'a>, expr: &'a Expr)
    requires
        !(expr is Literal),
        !(expr is Variable),
    ensures
        advance(arrives(c, w, ControlView::Evaluate(expr))) == arrives(
            match opening(expr).frame {
                Some(frame) => c.with_frame(frame),
                None => c,
            },
            w,
            ControlView::Evaluate(opening(expr).part),
        ),
{
    reveal(advance);
}

/// The value to assign is there: the machine assigns it, or is halted.
pub proof fn lemma_value_assign<'a>(
    c: Configuration<'a>,
    w: World<'a>,
    assignment: &'a AssignmentExpr,
    value: LoxObjectView<'a>,
)
    ensures
        advance(arrives(c.with_frame(Frame::Assign(assignment)), w, ControlView::Value(value)))
            == match w.environment.holder(
            w.environment.current as int,
            assignment.variable.lexeme@,
        ) {
            Some(_) => arrives(
                c,
                w.within(w.environment.assign(assignment.variable.lexeme@, value)),
                ControlView::Value(value),
            ),
            None => halts(c, undefined_variable(assignment.variable@), w),
        },
{
    reveal(advance);
    lemma_frame(c, w, Frame::Assign(assignment));
}

/// The operand of a prefix operator is there: the machine applies the
/// operator.
pub proof fn lemma_value_unary<'a>(
    c: Configuration<'a>,
    w: World<'a>,
    unary: &'a UnaryExpr,
    value: LoxObjectView<'a>,
)
    requires
        !(w.settle(unary_value(unary.operator@, value)) is Stalled),
    ensures
        advance(arrives(c.with_frame(Frame::UnaryApply(unary)), w, ControlView::Value(value)))
            == value_end(c, w.settle(unary_value(unary.operator@, value))),
{
    reveal(advance);
    lemma_frame(c, w, Frame::UnaryApply(unary));
    lemma_settle(
        arrives(c.with_frame(Frame::UnaryApply(unary)), w, ControlView::Value(value)),
        c,
        w,
        unary_value(unary.operator@, value),
    );
}

/// The left operand of `and` or `or` is there: the machine is done with the
/// operator, or goes on to the right operand.
pub proof fn lemma_value_logical<'a>(
    c: Configuration<'a>,
    w: World<'a>,
    binary: &'a BinaryExpr,
    value: LoxObjectView<'a>,
)
    ensures
        advance(arrives(c.with_frame(Frame::LogicalRight(binary)), w, ControlView::Value(value)))
            == if short_circuits(binary.operator@.kind, value) {
            arrives(c, w, ControlView::Value(value))
        } else {
            arrives(c, w, ControlView::Evaluate(&*binary.rhs))
        },
{
    reveal(advance);
    lemma_frame(c, w, Frame::LogicalRight(binary));
}

/// The left operand of a binary operator is there: the machine puts it
/// aside and goes on to the right operand.
pub proof fn lemma_value_left<'a>(
    c: Configuration<'a>,
    w: World<'a>,
    binary: &'a BinaryExpr,
    value: LoxObjectView<'a>,
)
    ensures
        advance(arrives(c.with_frame(Frame::BinaryRight(binary)), w, ControlView::Value(value)))
            == arrives(
            c.with_operand(value).with_frame(Frame::BinaryApply(binary)),
            w,
            ControlView::Evaluate(&*binary.rhs),
        ),
{
    reveal(advance);
    lemma_frame(c, w, Frame::BinaryRight(binary));
}

/// The right operand of a binary operator is there: the machine takes the
/// left one back and applies the operator.
pub proof fn lemma_value_right<'a>(
    c: Configuration<'a>,
    w: World<'a>,
    binary: &'a BinaryExpr,
    left: LoxObjectView<'a>,
    right: LoxObjectView<'a>,
)
    requires
        !(w.settle(binary_value(binary.operator@, left, right)) is Stalled),
    ensures
        advance(
            arrives(
                c.with_operand(left).with_frame(Frame::BinaryApply(binary)),
                w,
                ControlView::Value(right),
            ),
        ) == value_end(c, w.settle(binary_value(binary.operator@, left, right))),
{
    reveal(advance);
    let run = arrives(
        c.with_operand(left).with_frame(Frame::BinaryApply(binary)),
        w,
        ControlView::Value(right),
    );
    lemma_frame(c.with_operand(left), w, Frame::BinaryApply(binary));
    let rest = placed(c.with_operand(left), w);
    assert(rest.operands.subrange(0, rest.operands.len() - 1) =~= c.operands);
    assert(rest.without_operands(1) == placed(c, w));
    lemma_settle(run, c, w, binary_value(binary.operator@, left, right));
}

/// The callee of a call with arguments is there: the machine puts it aside
/// and goes on to the first argument.
pub proof fn lemma_value_callee<'a>(
    c: Configuration<'a>,
    w: World<'a>,
    call: &'a CallExpr,
    callee: LoxObjectView<'a>,
)
    ensures
        advance(arrives(c.with_frame(Frame::Callee(call)), w, ControlView::Value(callee)))
            == if call.args.len() == 0 {
            after_step(
                arrives(c.with_frame(Frame::Callee(call)), w, ControlView::Value(callee)),
                placed(c, w).call(callee, Seq::empty(), call.closing_paren@),
            )
        } else {
            arrives(
                arguments_context(c, call, callee, Seq::empty()),
                w,
                ControlView::Evaluate(&call.args[0]),
            )
        },
{
    reveal(advance);
    lemma_frame(c, w, Frame::Callee(call));
    assert(arguments_context(c, call, callee, Seq::empty()).operands =~= c.operands.push(callee));
}

/// An argument is there: the machine puts it aside and goes on to the next
/// one, or calls when it was the last.
pub proof fn lemma_value_argument<'a>(
    c: Configuration<'a>,
    w: World<'a>,
    call: &'a CallExpr,
    callee: LoxObjectView<'a>,
    done: Seq<LoxObjectView<'a>>,
    value: LoxObjectView<'a>,
)
    requires
        done.len() < call.args.len(),
    ensures
        advance(arrives(arguments_context(c, call, callee, done), w, ControlView::Value(value)))
            == if done.len() + 1 < call.args.len() {
            arrives(
                arguments_context(c, call, callee, done.push(value)),
                w,
                ControlView::Evaluate(&call.args[done.len() as int + 1]),
            )
        } else {
            after_step(
                arrives(arguments_context(c, call, callee, done), w, ControlView::Value(value)),
                placed(c, w).call(callee, done.push(value), call.closing_paren@),
            )
        },
{
    reveal(advance);
    let context = arguments_context(c, call, callee, done);
    let number = done.len() as int;
    let rest = placed(context, w).without_frame();
    assert(context.frames.drop_last() =~= c.frames);
    assert(context.frames.last() == Frame::Argument(call, done.len() as usize));
    assert(rest.operands == c.operands.push(callee) + done);
    if number + 1 < call.args.len() {
        assert(rest.operands.push(value) =~= c.operands.push(callee) + done.push(value));
    } else {
        assert(rest.operands[rest.operands.len() - number - 1] == callee);
        assert(rest.operands.subrange(rest.operands.len() - number, rest.operands.len() as int)
            =~= done);
        assert(rest.operands.subrange(0, rest.operands.len() - (number + 1)) =~= c.operands);
        assert(rest.without_operands(number + 1) == placed(c, w));
    }
}

/// The text of a number to print is there: the machine prints it.
pub proof fn lemma_value_text<'a>(c: Configuration<'a>, w: World<'a>, value: LoxObjectView<'a>)
    ensures
        advance(arrives(c.with_frame(Frame::PrintText), w, ControlView::Value(value)))
            == after_step(
            arrives(c.with_frame(Frame::PrintText), w, ControlView::Value(value)),
            placed(c, w).print(value),
        ),
{
    reveal(advance);
    lemma_frame(c, w, Frame::PrintText);
}

/// The value of an expression statement is there: the statement is done.
pub proof fn lemma_value_discard<'a>(c: Configuration<'a>, w: World<'a>, value: LoxObjectView<'a>)
    ensures
        advance(arrives(c.with_frame(Frame::Discard), w, ControlView::Value(value))) == arrives(
            c,
            w,
            ControlView::Completed(None),
        ),
{
    reveal(advance);
    lemma_frame(c, w, Frame::Discard);
}

/// The value of an initializer is there: the machine defines the variable.
pub proof fn lemma_value_define<'a>(
    c: Configuration<'a>,
    w: World<'a>,
    declaration: &'a VariableDeclarationStmt,
    value: LoxObjectView<'a>,
)
    ensures
        advance(arrives(c.with_frame(Frame::Define(declaration)), w, ControlView::Value(value)))
            == arrives(
            c,
            w.within(w.environment.define(declaration.name.lexeme@, value)),
            ControlView::Completed(None),
        ),
{
    reveal(advance);
    lemma_frame(c, w, Frame::Define(declaration));
}

/// The condition of an `if` is there: the machine goes on to a branch, or
/// the statement is done.
pub proof fn lemma_value_branch<'a>(
    c: Configuration<'a>,
    w: World<'a>,
    statement: &'a IfStmt,
    value: LoxObjectView<'a>,
)
    ensures
        advance(arrives(c.with_frame(Frame::Branch(statement)), w, ControlView::Value(value)))
            == if value.is_truthy() {
            arrives(c, w, ControlView::Execute(&*statement.then_branch))
        } else {
            match &statement.else_branch {
                Some(branch) => arrives(c, w, ControlView::Execute(&**branch)),
                None => arrives(c, w, ControlView::Completed(None)),
            }
        },
{
    reveal(advance);
    lemma_frame(c, w, Frame::Branch(statement));
}

/// The condition of a `while` is there: the machine goes on to the body,
/// or the statement is done.
pub proof fn lemma_value_test<'a>(
    c: Configuration<'a>,
    w: World<'a>,
    statement: &'a WhileStmt,
    value: LoxObjectView<'a>,
)
    ensures
        advance(arrives(c.with_frame(Frame::LoopTest(statement)), w, ControlView::Value(value)))
            == if value.is_truthy() {
            arrives(
                c.with_frame(Frame::LoopBody(statement)),
                w,
                ControlView::Execute(&*statement.body),
            )
        } else {
            arrives(c, w, ControlView::Completed(None))
        },
{
    reveal(advance);
    lemma_frame(c, w, Frame::LoopTest(statement));
}

/// The value of a `return` is there: it is the signal of the statement.
pub proof fn lemma_value_return<'a>(c: Configuration<'a>, w: World<'a>, value: LoxObjectView<'a>)
    ensures
        advance(arrives(c.with_frame(Frame::ReturnValue), w, ControlView::Value(value)))
            == arrives(c, w, ControlView::Completed(Some(value))),
{
    reveal(advance);
    lemma_frame(c, w, Frame::ReturnValue);
}

/// The body of a `while` is done: the machine passes a signal on, or goes
/// back to the condition.
pub proof fn lemma_done_body<'a>(
    c: Configuration<'a>,
    w: World<'a>,
    statement: &'a WhileStmt,
    signal: Option<LoxObjectView<'a>>,
)
    ensures
        advance(
            arrives(c.with_frame(Frame::LoopBody(statement)), w, ControlView::Completed(signal)),
        ) == if signal is Some {
            arrives(c, w, ControlView::Completed(signal))
        } else {
            arrives(
                c.with_frame(Frame::LoopTest(statement)),
                w,
                ControlView::Evaluate(&statement.condition),
            )
        },
{
    reveal(advance);
    lemma_frame(c, w, Frame::LoopBody(statement));
}

/// A statement of a block or of a body is done: the machine goes on to the
/// next one, or the frame is done and leaves its scope.
pub proof fn lemma_done_item<'a>(
    c: Configuration<'a>,
    w: World<'a>,
    stmts: &'a Vec<Stmt>,
    from: int,
    call: bool,
    restore: usize,
    signal: Option<LoxObjectView<'a>>,
)
    requires
        0 <= from <= stmts.len(),
    ensures
        advance(
            arrives(
                c.with_frame(list_frame(stmts, from, call, restore)),
                w,
                ControlView::Completed(signal),
            ),
        ) == if signal is None && from < stmts.len() {
            arrives(
                c.with_frame(list_frame(stmts, from + 1, call, restore)),
                w,
                ControlView::Execute(&stmts[from]),
            )
        } else {
            list_end(c, Outcome::Done(signal, w), call, restore)
        },
{
    reveal(advance);
    lemma_frame(c, w, list_frame(stmts, from, call, restore));
}

/// A statement of a program is done: the machine goes on to the next one,
/// or the program has ended.
pub proof fn lemma_done_statement<'a>(
    c: Configuration<'a>,
    w: World<'a>,
    stmts: &'a Vec<Stmt>,
    from: int,
    signal: Option<LoxObjectView<'a>>,
)
    requires
        0 <= from <= stmts.len(),
    ensures
        advance(
            arrives(
                c.with_frame(Frame::Program { statements: stmts, next: from as usize }),
                w,
                ControlView::Completed(signal),
            ),
        ) == if from < stmts.len() {
            arrives(
                c.with_frame(Frame::Program { statements: stmts, next: (from + 1) as usize }),
                w,
                ControlView::Execute(&stmts[from]),
            )
        } else {
            program_end(c, Outcome::Done((), w))
        },
{
    reveal(advance);
    lemma_frame(c, w, Frame::Program { statements: stmts, next: from as usize });
}

/// Where the first step of a statement leads: to the evaluation of a part
/// of it, with a frame left on the stack, for the statements that start with
/// an expression.
pub open spec fn entering<'a>(stmt: &'a Stmt) -> Opening<'a> {
    match stmt {
        Stmt::Expression(statement) => Opening {
            frame: Some(Frame::Discard),
            part: &statement.expr,
        },
        Stmt::VariableDeclaration(declaration) => match &declaration.initializer {
            Some(initializer) => Opening {
                frame: Some(Frame::Define(declaration)),
                part: initializer,
            },
            None => Opening { frame: None, part: arbitrary() },
        },
        Stmt::If(statement) => Opening {
            frame: Some(Frame::Branch(statement)),
            part: &statement.condition,
        },
        Stmt::While(statement) => Opening {
            frame: Some(Frame::LoopTest(statement)),
            part: &statement.condition,
        },
        Stmt::Return(statement) => match &statement.value {
            Some(value) => Opening { frame: Some(Frame::ReturnValue), part: value },
            None => Opening { frame: None, part: arbitrary() },
        },
        _ => Opening { frame: None, part: arbitrary() },
    }
}

/// Starting on a statement that starts with an expression: the machine
/// leaves a frame and goes on to the expression.
pub proof fn lemma_enter<'a>(c: Configuration<'a>, w: World<'a>, stmt: &'a Stmt)
    requires
        entering(stmt).frame is Some,
    ensures
        advance(arrives(c, w, ControlView::Execute(stmt))) == arrives(
            c.with_frame(entering(stmt).frame->0),
            w,
            ControlView::Evaluate(entering(stmt).part),
        ),
{
    reveal(advance);
}

/// Starting on a statement that is done at once: a variable without an
/// initializer, a function declaration, a `return` without a value.
pub proof fn lemma_enter_simple<'a>(c: Configuration<'a>, w: World<'a>, stmt: &'a Stmt)
    requires
        entering(stmt).frame is None,
        !(stmt is Block),
    ensures
        advance(arrives(c, w, ControlView::Execute(stmt))) == match stmt {
            Stmt::VariableDeclaration(declaration) => arrives(
                c,
                w.within(w.environment.define(declaration.name.lexeme@, LoxObjectView::Nil)),
                ControlView::Completed(None),
            ),
            Stmt::FunctionDeclaration(declaration) => arrives(
                c,
                w.within(
                    w.environment.define(
                        declaration.name.lexeme@,
                        LoxObjectView::Function(
                            Callable::Function(
                                LoxFunction {
                                    declaration,
                                    closure: w.environment.current,
                                },
                            ),
                        ),
                    ).capture(),
                ),
                ControlView::Completed(None),
            ),
            _ => arrives(c, w, ControlView::Completed(Some(LoxObjectView::Nil))),
        },
{
    reveal(advance);
}

/// Starting on a block: the machine enters a new scope and leaves the
/// frame of the block.
pub proof fn lemma_enter_block<'a>(c: Configuration<'a>, w: World<'a>, stmt: &'a Stmt)
    requires
        stmt is Block,
    ensures
        advance(arrives(c, w, ControlView::Execute(stmt))) == arrives(
            c.with_frame(
                list_frame(&stmt->Block_0.body, 0, false, w.environment.current),
            ),
            w.within(w.environment.enter(w.environment.current)),
            ControlView::Completed(None),
        ),
{
    reveal(advance);
}

} // verus!
