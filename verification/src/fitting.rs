//! The configurations that a program can bring the machine to: those whose
//! stack fits their control. The machine keeps them so, and never lacks a
//! frame or an operand in them.

use crate::callable::{Callable, LoxCallable};
use crate::grammar::{Expr, Stmt};
use crate::machine::{ActionView, Configuration, ControlView, Frame};
use crate::object::LoxObjectView;
use crate::operators::EvaluationView;
use crate::token::TokenView;
use vstd::prelude::*;

verus! {

/// True for the frames that wait for a value; the others wait for a
/// statement to be done.
pub open spec fn takes_value(frame: Frame) -> bool {
    !(frame is LoopBody || frame is Block || frame is Call || frame is Program)
}

/// True for the frames that hand a value to the frame below them when they
/// are done; the others tell it that a statement is done.
pub open spec fn gives_value(frame: Frame) -> bool {
    frame is BinaryRight || frame is BinaryApply || frame is LogicalRight || frame is UnaryApply
        || frame is Assign || frame is Callee || frame is Argument || frame is PrintText
        || frame is Call
}

/// The number of operands that a frame has put aside.
pub open spec fn needs(frame: Frame) -> nat {
    match frame {
        Frame::BinaryApply(_) => 1,
        Frame::Argument(_, number) => number as nat + 1,
        _ => 0,
    }
}

/// The number of operands that the frames of a stack have put aside.
pub open spec fn needed(frames: Seq<Frame>) -> nat
    decreases frames.len(),
{
    if frames.len() == 0 {
        0
    } else {
        needed(frames.drop_last()) + needs(frames.last())
    }
}

/// True for the stacks that a program builds: a program is at the bottom
/// and nowhere else, every frame above hands down what the frame below it
/// waits for, and an argument that is being evaluated is one of its call.
pub open spec fn chained(frames: Seq<Frame>) -> bool {
    &&& forall|i: int|
        0 < i < frames.len() ==> gives_value(#[trigger] frames[i]) == takes_value(frames[i - 1])
            && !(frames[i] is Program)
    &&& frames.len() > 0 ==> frames[0] is Program
    &&& forall|i: int|
        0 <= i < frames.len() ==> (#[trigger] frames[i] matches Frame::Argument(call, number)
            ==> number < call.args.len())
}

/// True for the configurations whose stack fits their control: the stack is
/// one that a program builds, the operands are those that its frames have
/// put aside, and the frame on top waits for what the control is about to
/// bring. An idle machine has an empty stack.
pub open spec fn fits(c: Configuration) -> bool {
    &&& chained(c.frames)
    &&& c.operands.len() == needed(c.frames)
    &&& match c.control {
        ControlView::Idle => c.frames.len() == 0,
        ControlView::Evaluate(_) => c.frames.len() > 0 && takes_value(c.frames.last()),
        ControlView::Value(_) => c.frames.len() > 0 && takes_value(c.frames.last()),
        ControlView::Waiting(_) => c.frames.len() > 0 && takes_value(c.frames.last()),
        ControlView::Execute(_) => c.frames.len() > 0 && !takes_value(c.frames.last()),
        ControlView::Completed(_) => c.frames.len() > 0 && !takes_value(c.frames.last()),
    }
}

/// True where the machine lacks what its next step takes: a frame for the
/// value or the statement at hand, or the operands that the frame on top
/// has put aside. The step then halts the machine.
pub open spec fn jammed(c: Configuration) -> bool {
    match c.control {
        ControlView::Value(_) => c.frames.len() == 0 || !takes_value(c.frames.last())
            || match c.frames.last() {
            Frame::BinaryApply(_) => c.operands.len() == 0,
            Frame::Argument(call, number) => number + 1 >= call.args.len() && c.operands.len()
                < number + 1,
            _ => false,
        },
        ControlView::Completed(_) => c.frames.len() == 0 || takes_value(c.frames.last()),
        _ => false,
    }
}

/// What a frame adds to a stack it adds to what the stack has put aside.
pub proof fn lemma_needed_push(frames: Seq<Frame>, frame: Frame)
    ensures
        needed(frames.push(frame)) == needed(frames) + needs(frame),
{
    assert(frames.push(frame).drop_last() =~= frames);
}

/// A stack without its top is one that a program builds, and has put aside
/// what the stack has but for the top.
pub proof fn lemma_chained_pop(frames: Seq<Frame>)
    requires
        chained(frames),
        frames.len() > 0,
    ensures
        chained(frames.drop_last()),
        needed(frames) == needed(frames.drop_last()) + needs(frames.last()),
        frames.len() > 1 ==> (gives_value(frames.last()) == takes_value(
            frames.drop_last().last(),
        )) && !(frames.last() is Program),
        frames.len() == 1 ==> frames.last() is Program,
{
    let rest = frames.drop_last();
    assert forall|i: int| 0 < i < rest.len() implies gives_value(#[trigger] rest[i])
        == takes_value(rest[i - 1]) && !(rest[i] is Program) by {
        assert(rest[i] == frames[i]);
    }
    assert forall|i: int| 0 <= i < rest.len() implies (#[trigger] rest[i] matches Frame::Argument(
        call,
        number,
    ) ==> number < call.args.len()) by {
        assert(rest[i] == frames[i]);
    }
    if frames.len() > 1 {
        assert(rest[0] == frames[0]);
        assert(frames[frames.len() - 1] == frames.last());
        assert(rest.last() == frames[frames.len() - 2]);
    }
}

/// A frame on a stack that a program builds makes one more where it hands
/// down what the top waits for, is no program, and is sound in itself.
pub proof fn lemma_chained_push(frames: Seq<Frame>, frame: Frame)
    requires
        chained(frames),
        frames.len() > 0,
        gives_value(frame) == takes_value(frames.last()),
        !(frame is Program),
        frame matches Frame::Argument(call, number) ==> number < call.args.len(),
    ensures
        chained(frames.push(frame)),
        needed(frames.push(frame)) == needed(frames) + needs(frame),
        frames.push(frame).last() == frame,
{
    lemma_needed_push(frames, frame);
    let more = frames.push(frame);
    assert forall|i: int| 0 < i < more.len() implies gives_value(#[trigger] more[i])
        == takes_value(more[i - 1]) && !(more[i] is Program) by {
        if i < frames.len() {
            assert(more[i] == frames[i]);
            assert(more[i - 1] == frames[i - 1]);
        } else {
            assert(more[i - 1] == frames.last());
        }
    }
    assert(more[0] == frames[0]);
    assert forall|i: int| 0 <= i < more.len() implies (#[trigger] more[i] matches Frame::Argument(
        call,
        number,
    ) ==> number < call.args.len()) by {
        if i < frames.len() {
            assert(more[i] == frames[i]);
        }
    }
}

/// True where the stack and the operands of `c` fit and its top frame waits
/// for a value.
pub open spec fn ready_for_value(c: Configuration) -> bool {
    chained(c.frames) && c.operands.len() == needed(c.frames) && c.frames.len() > 0
        && takes_value(c.frames.last())
}

/// True where the stack and the operands of `c` fit and its top frame waits
/// for a statement to be done.
pub open spec fn ready_for_statement(c: Configuration) -> bool {
    chained(c.frames) && c.operands.len() == needed(c.frames) && c.frames.len() > 0
        && !takes_value(c.frames.last())
}

/// A runtime error leaves the machine fitting: idle, with nothing on its
/// stack.
pub proof fn lemma_fail_fits<'a>(
    c: Configuration<'a>,
    error: crate::error::runtime_error::RuntimeErrorView,
)
    ensures
        fits(c.fail(error).next),
        fits(c.stuck().next),
{
}

/// Going on after an evaluation keeps the machine fitting.
pub proof fn lemma_settle_fits<'a>(c: Configuration<'a>, evaluation: EvaluationView<'a>)
    requires
        ready_for_value(c),
    ensures
        fits(c.settle(evaluation).next),
{
}

/// Printing keeps the machine fitting.
pub proof fn lemma_print_fits<'a>(c: Configuration<'a>, value: LoxObjectView<'a>)
    requires
        ready_for_value(c),
    ensures
        fits(c.print(value).next),
{
    if value is Number {
        lemma_chained_push(c.frames, Frame::PrintText);
    }
}

/// A call keeps the machine fitting.
pub proof fn lemma_call_fits<'a>(
    c: Configuration<'a>,
    callee: LoxObjectView<'a>,
    args: Seq<LoxObjectView<'a>>,
    paren: TokenView,
)
    requires
        ready_for_value(c),
    ensures
        fits(c.call(callee, args, paren).next),
{
    match callee {
        LoxObjectView::Function(callable) => {
            if args.len() == callable.spec_arity() {
                match callable {
                    Callable::Print(_) => {
                        lemma_print_fits(c, args[0]);
                    },
                    Callable::Function(function) => {
                        lemma_chained_push(
                            c.frames,
                            Frame::Call {
                                body: &function.declaration.body,
                                next: 0,
                                caller: c.environment.current,
                            },
                        );
                    },
                    _ => {},
                }
            }
        },
        _ => {},
    }
}

/// Starting on an expression keeps the machine fitting.
pub proof fn lemma_evaluate_fits<'a>(c: Configuration<'a>, expr: &'a Expr)
    requires
        ready_for_value(c),
    ensures
        fits(c.evaluate(expr).next),
{
    match expr {
        Expr::Binary(binary) => {
            lemma_chained_push(c.frames, Frame::BinaryRight(binary));
        },
        Expr::Grouping(_) => {},
        Expr::Literal(literal) => {
            lemma_settle_fits(c, crate::operators::literal_value(literal.token@));
        },
        Expr::Unary(unary) => {
            lemma_chained_push(c.frames, Frame::UnaryApply(unary));
        },
        Expr::Variable(_) => {},
        Expr::Assignment(assignment) => {
            lemma_chained_push(c.frames, Frame::Assign(assignment));
        },
        Expr::Logical(binary) => {
            lemma_chained_push(c.frames, Frame::LogicalRight(binary));
        },
        Expr::Call(call) => {
            lemma_chained_push(c.frames, Frame::Callee(call));
        },
    }
}

/// Starting on a statement keeps the machine fitting.
pub proof fn lemma_execute_fits<'a>(c: Configuration<'a>, stmt: &'a Stmt)
    requires
        ready_for_statement(c),
    ensures
        fits(c.execute(stmt).next),
{
    match stmt {
        Stmt::Expression(_) => {
            lemma_chained_push(c.frames, Frame::Discard);
        },
        Stmt::VariableDeclaration(declaration) => {
            if declaration.initializer is Some {
                lemma_chained_push(c.frames, Frame::Define(declaration));
            }
        },
        Stmt::Block(block) => {
            lemma_chained_push(
                c.frames,
                Frame::Block {
                    body: &block.body,
                    next: 0,
                    enclosing: c.environment.current,
                },
            );
        },
        Stmt::If(statement) => {
            lemma_chained_push(c.frames, Frame::Branch(statement));
        },
        Stmt::While(statement) => {
            lemma_chained_push(c.frames, Frame::LoopTest(statement));
        },
        Stmt::FunctionDeclaration(_) => {},
        Stmt::Return(statement) => {
            if statement.value is Some {
                lemma_chained_push(c.frames, Frame::ReturnValue);
            }
        },
    }
}

/// Handing a value to the frame on top keeps the machine fitting, and the
/// machine lacks nothing for it.
pub proof fn lemma_deliver_fits<'a>(c: Configuration<'a>, value: LoxObjectView<'a>)
    requires
        ready_for_value(c),
    ensures
        fits(c.deliver(value).next),
        c.operands.len() >= needs(c.frames.last()),
{
    lemma_chained_pop(c.frames);
    let rest = c.without_frame();
    assert(rest.frames.len() > 0);
    match c.frames.last() {
        Frame::BinaryRight(binary) => {
            lemma_chained_push(rest.frames, Frame::BinaryApply(binary));
        },
        Frame::BinaryApply(binary) => {
            lemma_settle_fits(
                rest.without_operands(1),
                crate::operators::binary_value(binary.operator@, rest.operands.last(), value),
            );
        },
        Frame::LogicalRight(_) => {},
        Frame::UnaryApply(unary) => {
            lemma_settle_fits(rest, crate::operators::unary_value(unary.operator@, value));
        },
        Frame::Assign(_) => {},
        Frame::Callee(call) => {
            if call.args.len() == 0 {
                lemma_call_fits(rest, value, Seq::empty(), call.closing_paren@);
            } else {
                lemma_chained_push(rest.frames, Frame::Argument(call, 0));
            }
        },
        Frame::Argument(call, number) => {
            if number + 1 < call.args.len() {
                lemma_chained_push(rest.frames, Frame::Argument(call, (number + 1) as usize));
            } else {
                lemma_call_fits(
                    rest.without_operands(number + 1),
                    rest.operands[rest.operands.len() - number - 1],
                    rest.operands.subrange(
                        rest.operands.len() - number,
                        rest.operands.len() as int,
                    ).push(value),
                    call.closing_paren@,
                );
            }
        },
        Frame::PrintText => {
            lemma_print_fits(rest, value);
        },
        Frame::LoopTest(statement) => {
            lemma_chained_push(rest.frames, Frame::LoopBody(statement));
        },
        _ => {},
    }
}

/// Telling the frame on top that a statement is done keeps the machine
/// fitting.
pub proof fn lemma_complete_fits<'a>(c: Configuration<'a>, signal: Option<LoxObjectView<'a>>)
    requires
        ready_for_statement(c),
    ensures
        fits(c.complete(signal).next),
{
    lemma_chained_pop(c.frames);
    let rest = c.without_frame();
    match c.frames.last() {
        Frame::LoopBody(statement) => {
            lemma_chained_push(rest.frames, Frame::LoopTest(statement));
        },
        Frame::Block { body, next, enclosing } => {
            lemma_chained_push(
                rest.frames,
                Frame::Block { body, next: (next + 1) as usize, enclosing },
            );
        },
        Frame::Call { body, next, caller } => {
            lemma_chained_push(rest.frames, Frame::Call { body, next: (next + 1) as usize, caller });
        },
        Frame::Program { statements, next } => {
            assert(rest.frames.len() == 0);
            let again = Frame::Program { statements, next: (next + 1) as usize };
            lemma_needed_push(rest.frames, again);
            assert(rest.frames.push(again).last() == again);
        },
        _ => {},
    }
}

/// A fitting machine lacks nothing for its next step.
pub proof fn lemma_fitting_is_not_jammed(c: Configuration)
    requires
        fits(c),
    ensures
        !jammed(c),
{
    if c.control is Value {
        lemma_chained_pop(c.frames);
    }
}

/// A machine that lacks something for its next step is halted by it.
pub proof fn lemma_jammed_halts(c: Configuration)
    requires
        jammed(c),
    ensures
        c.step() == c.with_control(ControlView::Idle).stuck(),
{
}

/// A machine that has just been loaded fits.
pub proof fn lemma_loaded_fits<'a>(c: Configuration<'a>, statements: &'a Vec<Stmt>)
    ensures
        fits(c.load(statements)),
{
    let frames = seq![Frame::Program { statements, next: 0 }];
    assert(frames.drop_last() =~= Seq::<Frame>::empty());
    assert(needed(Seq::<Frame>::empty()) == 0);
    assert(needed(frames) == 0);
}

/// An answer keeps the machine fitting.
pub proof fn lemma_answer_fits<'a>(c: Configuration<'a>, value: LoxObjectView<'a>)
    requires
        fits(c),
    ensures
        fits(c.answer(value)),
{
}

/// A step keeps the machine fitting. So every configuration that the
/// machine comes to once a program has been loaded fits, and none of them
/// is jammed.
pub proof fn lemma_step_fits(c: Configuration)
    requires
        fits(c),
    ensures
        fits(c.step().next),
{
    let idle = c.with_control(ControlView::Idle);
    match c.control {
        ControlView::Idle => {},
        ControlView::Waiting(_) => {},
        ControlView::Evaluate(expr) => {
            lemma_evaluate_fits(idle, expr);
        },
        ControlView::Execute(stmt) => {
            lemma_execute_fits(idle, stmt);
        },
        ControlView::Value(value) => {
            lemma_deliver_fits(idle, value);
        },
        ControlView::Completed(signal) => {
            lemma_complete_fits(idle, signal);
        },
    }
}

/// Running keeps the machine fitting.
pub proof fn lemma_run_fits(c: Configuration, budget: nat)
    requires
        fits(c),
    ensures
        fits(crate::interpreter::run_of(c, budget).next),
    decreases budget,
{
    if budget > 0 {
        lemma_step_fits(c);
        if c.step().action == ActionView::Continue {
            lemma_run_fits(c.step().next, (budget - 1) as nat);
        }
    }
}

} // verus!
