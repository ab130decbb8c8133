//! The evaluator of Lox as an abstract machine: a configuration and the
//! function that takes a configuration to the next one.
//!
//! The machine walks the syntax tree with an explicit stack. Its control says
//! what it is about to do: evaluate an expression, execute a statement, hand
//! a value to the frame on top of the stack, or tell that frame that a
//! statement is done. A statement that is done carries the early-return
//! signal: the value of a `return` that was hit inside it, on its way to the
//! frame of the function call that it ends.

use crate::builtin_functions::{Clock, Print, PrintEnv};
use crate::callable::{Callable, LoxCallable};
use crate::environment::{undefined_variable, EnvironmentView};
use crate::error::error_reporter::DiagnosticView;
use crate::error::runtime_error::RuntimeErrorView;
use crate::function::LoxFunction;
use crate::grammar::{
    AssignmentExpr, BinaryExpr, CallExpr, Expr, IfStmt, Stmt, UnaryExpr, VariableDeclarationStmt,
    WhileStmt,
};
use crate::object::LoxObjectView;
use crate::operators::{
    binary_value, error_at, literal_value, short_circuits, unary_value, EvaluationView,
    RequestView,
};
use crate::token::{Token, TokenView};
use crate::util::spec_decimal;
use vstd::prelude::*;

verus! {

/// What the machine will do once the work at hand is done. The frames that
/// wait for a value come first, then those that wait for a statement.
#[derive(Debug, Clone, Copy)]
pub enum Frame<'a> {
    /// The left operand of a binary operator is being evaluated.
    BinaryRight(&'a BinaryExpr),
    /// The right operand is being evaluated; the left one is the top
    /// operand.
    BinaryApply(&'a BinaryExpr),
    /// The left operand of `and` or `or` is being evaluated.
    LogicalRight(&'a BinaryExpr),
    /// The operand of a prefix operator is being evaluated.
    UnaryApply(&'a UnaryExpr),
    /// The value to assign is being evaluated.
    Assign(&'a AssignmentExpr),
    /// The callee of a call is being evaluated.
    Callee(&'a CallExpr),
    /// The argument of the given number is being evaluated; the callee and
    /// the arguments before it are the top operands.
    Argument(&'a CallExpr, usize),
    /// The text of a number to print has been asked for.
    PrintText,
    /// The expression of an expression statement is being evaluated.
    Discard,
    /// The initializer of a variable is being evaluated.
    Define(&'a VariableDeclarationStmt),
    /// The condition of an `if` is being evaluated.
    Branch(&'a IfStmt),
    /// The condition of a `while` is being evaluated.
    LoopTest(&'a WhileStmt),
    /// The value of a `return` is being evaluated.
    ReturnValue,
    /// The body of a `while` is being executed.
    LoopBody(&'a WhileStmt),
    /// A block is being executed: `next` is the statement that follows the
    /// one at hand, `enclosing` the scope to go back to.
    Block { body: &'a Vec<Stmt>, next: usize, enclosing: usize },
    /// The body of a function is being executed for a call: `next` is the
    /// statement that follows the one at hand, `caller` the scope to go back
    /// to.
    Call { body: &'a Vec<Stmt>, next: usize, caller: usize },
    /// A program is being executed: `next` is the statement that follows the
    /// one at hand.
    Program { statements: &'a Vec<Stmt>, next: usize },
}

/// What the machine is about to do.
pub enum ControlView<'a> {
    /// Nothing: no program is loaded, or the program has ended.
    Idle,
    /// Evaluate the expression.
    Evaluate(&'a Expr),
    /// Execute the statement.
    Execute(&'a Stmt),
    /// Hand the value to the frame on top.
    Value(LoxObjectView<'a>),
    /// Tell the frame on top that a statement is done, with the value of the
    /// `return` that ended it, if one did.
    Completed(Option<LoxObjectView<'a>>),
    /// Wait for the answer to the request.
    Waiting(RequestView),
}

/// What the embedding program has to do after a step of the machine.
pub enum ActionView {
    /// Nothing: take the next step.
    Continue,
    /// Work out what is asked for and answer, then go on.
    Ask(RequestView),
    /// Print the text and a line break, then go on.
    Print(Seq<char>),
    /// Print the environment, then go on.
    PrintEnvironment,
    /// Show the runtime error. The program has been halted.
    Fail(RuntimeErrorView),
    /// Nothing more: the program has ended.
    Finished,
}

/// The state of the machine.
pub struct Configuration<'a> {
    /// The scopes and their variables.
    pub environment: EnvironmentView<'a>,
    /// The stack of what is left to do, with the next thing last.
    pub frames: Seq<Frame<'a>>,
    /// The values that frames on the stack have put aside, the newest last.
    pub operands: Seq<LoxObjectView<'a>>,
    /// What the machine is about to do.
    pub control: ControlView<'a>,
    /// Everything reported so far, in order.
    pub reports: Seq<DiagnosticView>,
    /// Whether anything was ever reported.
    pub had_error: bool,
}

/// A step of the machine: the configuration it leads to and what the
/// embedding program has to do.
pub struct Step<'a> {
    pub next: Configuration<'a>,
    pub action: ActionView,
}

/// The text that `print` shows for a value: `nil`, `true` or `false`, the
/// characters of a string, `<fn NAME>` for a function. A number has no text
/// here: it is asked for.
pub open spec fn text_of(value: LoxObjectView) -> Option<Seq<char>> {
    match value {
        LoxObjectView::String(text) => Some(text),
        LoxObjectView::Number(_) => None,
        LoxObjectView::Boolean(boolean) => Some(
            if boolean {
                "true"@
            } else {
                "false"@
            },
        ),
        LoxObjectView::Nil => Some("nil"@),
        LoxObjectView::Function(callable) => Some("<fn "@ + callable.spec_name() + ">"@),
    }
}

/// The error of a call with the wrong number of arguments.
pub open spec fn arity_error(paren: TokenView, expected: nat, got: nat) -> RuntimeErrorView {
    error_at(
        paren,
        "Expected "@ + spec_decimal(expected) + " arguments but got "@ + spec_decimal(got),
    )
}

/// The error of a call of something that is no function.
pub open spec fn not_callable(paren: TokenView) -> RuntimeErrorView {
    error_at(paren, "Can only call functions and classes."@)
}

/// The environment after the parameters from number `from` on were bound to
/// their arguments, in the current scope.
pub open spec fn bind_parameters<'a>(
    environment: EnvironmentView<'a>,
    params: Seq<Token>,
    args: Seq<LoxObjectView<'a>>,
    from: int,
) -> EnvironmentView<'a>
    decreases params.len() - from,
{
    if from < 0 || from >= params.len() {
        environment
    } else {
        bind_parameters(
            environment.define(params[from].lexeme@, args[from]),
            params,
            args,
            from + 1,
        )
    }
}

impl<'a> Configuration<'a> {
    /// The configuration with the control `control`.
    pub open spec fn with_control(self, control: ControlView<'a>) -> Self {
        Configuration { control, ..self }
    }

    /// The configuration with `frame` on top of the stack.
    pub open spec fn with_frame(self, frame: Frame<'a>) -> Self {
        Configuration { frames: self.frames.push(frame), ..self }
    }

    /// The configuration without the frame on top of the stack.
    pub open spec fn without_frame(self) -> Self {
        Configuration { frames: self.frames.drop_last(), ..self }
    }

    /// The configuration with `value` as the newest operand.
    pub open spec fn with_operand(self, value: LoxObjectView<'a>) -> Self {
        Configuration { operands: self.operands.push(value), ..self }
    }

    /// The configuration without its newest `count` operands.
    pub open spec fn without_operands(self, count: int) -> Self {
        Configuration {
            operands: self.operands.subrange(0, self.operands.len() - count),
            ..self
        }
    }

    /// The configuration in the environment `environment`.
    pub open spec fn in_environment(self, environment: EnvironmentView<'a>) -> Self {
        Configuration { environment, ..self }
    }

    /// The step to this configuration with the control `control`, after
    /// which the machine just goes on.
    pub open spec fn go(self, control: ControlView<'a>) -> Step<'a> {
        Step { next: self.with_control(control), action: ActionView::Continue }
    }

    /// The step that asks the embedding program for `request`.
    pub open spec fn ask(self, request: RequestView) -> Step<'a> {
        Step {
            next: self.with_control(ControlView::Waiting(request)),
            action: ActionView::Ask(request),
        }
    }

    /// The configuration of a machine that has dropped its program: nothing
    /// is left to do, and the program is back in the global scope.
    pub open spec fn halted(self) -> Self {
        Configuration {
            environment: self.environment.home(),
            frames: Seq::empty(),
            operands: Seq::empty(),
            control: ControlView::Idle,
            ..self
        }
    }

    /// The step of a runtime error: the error is reported and the program is
    /// halted.
    pub open spec fn fail(self, error: RuntimeErrorView) -> Step<'a> {
        Step {
            next: Configuration {
                reports: self.reports.push(DiagnosticView::Runtime(error)),
                had_error: true,
                ..self.halted()
            },
            action: ActionView::Fail(error),
        }
    }

    /// The step of a machine whose stack does not fit its control. No
    /// program brings the machine there; it halts.
    pub open spec fn stuck(self) -> Step<'a> {
        Step { next: self.halted(), action: ActionView::Finished }
    }

    /// The step that follows an evaluation: on with the value, a request for
    /// it, or the error.
    pub open spec fn settle(self, evaluation: EvaluationView<'a>) -> Step<'a> {
        match evaluation {
            EvaluationView::Value(value) => self.go(ControlView::Value(value)),
            EvaluationView::Ask(request) => self.ask(request),
            EvaluationView::Error(error) => self.fail(error),
        }
    }

    /// The step that prints `value`. The text of a number is asked for
    /// first, and printed when it comes back.
    pub open spec fn print(self, value: LoxObjectView<'a>) -> Step<'a> {
        match value {
            LoxObjectView::Number(number) => self.with_frame(Frame::PrintText).ask(
                RequestView::Format(number),
            ),
            _ => Step {
                next: self.with_control(ControlView::Value(LoxObjectView::Nil)),
                action: ActionView::Print(text_of(value)->0),
            },
        }
    }

    /// The step that calls `callee` with the arguments `args`.
    ///
    /// What is no function cannot be called, and a function only with as
    /// many arguments as it has parameters: both are errors at the closing
    /// parenthesis, and nothing else happens. A built-in function is the
    /// embedding program's to carry out. For a declared function the
    /// machine enters a new scope inside the one that the function closes
    /// over, binds the parameters there and starts on the body; the frame
    /// that it leaves on the stack turns the end of the body, or a `return`,
    /// into the value of the call.
    pub open spec fn call(
        self,
        callee: LoxObjectView<'a>,
        args: Seq<LoxObjectView<'a>>,
        paren: TokenView,
    ) -> Step<'a> {
        match callee {
            LoxObjectView::Function(callable) => if args.len() != callable.spec_arity() {
                self.fail(arity_error(paren, callable.spec_arity() as nat, args.len()))
            } else {
                match callable {
                    Callable::Clock(_) => self.ask(RequestView::Clock),
                    Callable::PrintEnv(_) => Step {
                        next: self.with_control(ControlView::Value(LoxObjectView::Nil)),
                        action: ActionView::PrintEnvironment,
                    },
                    Callable::Print(_) => self.print(args[0]),
                    Callable::Function(function) => self.in_environment(
                        bind_parameters(
                            self.environment.enter(function.closure),
                            function.declaration.params@,
                            args,
                            0,
                        ),
                    ).with_frame(
                        Frame::Call {
                            body: &function.declaration.body,
                            next: 0,
                            caller: self.environment.current,
                        },
                    ).go(ControlView::Completed(None)),
                }
            },
            _ => self.fail(not_callable(paren)),
        }
    }

    /// The step that starts on the evaluation of `expr`.
    pub open spec fn evaluate(self, expr: &'a Expr) -> Step<'a> {
        match expr {
            Expr::Binary(binary) => self.with_frame(Frame::BinaryRight(binary)).go(
                ControlView::Evaluate(&*binary.lhs),
            ),
            Expr::Grouping(grouping) => self.go(ControlView::Evaluate(&*grouping.expr)),
            Expr::Literal(literal) => self.settle(literal_value(literal.token@)),
            Expr::Unary(unary) => self.with_frame(Frame::UnaryApply(unary)).go(
                ControlView::Evaluate(&*unary.rhs),
            ),
            Expr::Variable(variable) => match self.environment.get(variable.name.lexeme@) {
                Some(value) => self.go(ControlView::Value(value)),
                None => self.fail(undefined_variable(variable.name@)),
            },
            Expr::Assignment(assignment) => self.with_frame(Frame::Assign(assignment)).go(
                ControlView::Evaluate(&*assignment.expr),
            ),
            Expr::Logical(binary) => self.with_frame(Frame::LogicalRight(binary)).go(
                ControlView::Evaluate(&*binary.lhs),
            ),
            Expr::Call(call) => self.with_frame(Frame::Callee(call)).go(
                ControlView::Evaluate(&*call.callee),
            ),
        }
    }

    /// The step that starts on the execution of `stmt`.
    pub open spec fn execute(self, stmt: &'a Stmt) -> Step<'a> {
        match stmt {
            Stmt::Expression(statement) => self.with_frame(Frame::Discard).go(
                ControlView::Evaluate(&statement.expr),
            ),
            Stmt::VariableDeclaration(declaration) => match &declaration.initializer {
                Some(initializer) => self.with_frame(Frame::Define(declaration)).go(
                    ControlView::Evaluate(initializer),
                ),
                None => self.in_environment(
                    self.environment.define(declaration.name.lexeme@, LoxObjectView::Nil),
                ).go(ControlView::Completed(None)),
            },
            Stmt::Block(block) => self.in_environment(
                self.environment.enter(self.environment.current),
            ).with_frame(
                Frame::Block {
                    body: &block.body,
                    next: 0,
                    enclosing: self.environment.current,
                },
            ).go(ControlView::Completed(None)),
            Stmt::If(statement) => self.with_frame(Frame::Branch(statement)).go(
                ControlView::Evaluate(&statement.condition),
            ),
            Stmt::While(statement) => self.with_frame(Frame::LoopTest(statement)).go(
                ControlView::Evaluate(&statement.condition),
            ),
            Stmt::FunctionDeclaration(declaration) => self.in_environment(
                self.environment.define(
                    declaration.name.lexeme@,
                    LoxObjectView::Function(
                        Callable::Function(
                            LoxFunction {
                                declaration,
                                closure: self.environment.current,
                            },
                        ),
                    ),
                ).capture(),
            ).go(ControlView::Completed(None)),
            Stmt::Return(statement) => match &statement.value {
                Some(value) => self.with_frame(Frame::ReturnValue).go(
                    ControlView::Evaluate(value),
                ),
                None => self.go(ControlView::Completed(Some(LoxObjectView::Nil))),
            },
        }
    }

    /// The step that hands `value` to the frame on top of the stack.
    pub open spec fn deliver(self, value: LoxObjectView<'a>) -> Step<'a> {
        if self.frames.len() == 0 {
            self.stuck()
        } else {
            let rest = self.without_frame();
            match self.frames.last() {
                Frame::BinaryRight(binary) => rest.with_operand(value).with_frame(
                    Frame::BinaryApply(binary),
                ).go(ControlView::Evaluate(&*binary.rhs)),
                Frame::BinaryApply(binary) => if rest.operands.len() == 0 {
                    self.stuck()
                } else {
                    rest.without_operands(1).settle(
                        binary_value(binary.operator@, rest.operands.last(), value),
                    )
                },
                Frame::LogicalRight(binary) => if short_circuits(binary.operator@.kind, value) {
                    rest.go(ControlView::Value(value))
                } else {
                    rest.go(ControlView::Evaluate(&*binary.rhs))
                },
                Frame::UnaryApply(unary) => rest.settle(unary_value(unary.operator@, value)),
                Frame::Assign(assignment) => match rest.environment.holder(
                    rest.environment.current as int,
                    assignment.variable.lexeme@,
                ) {
                    Some(_) => rest.in_environment(
                        rest.environment.assign(assignment.variable.lexeme@, value),
                    ).go(ControlView::Value(value)),
                    None => rest.fail(undefined_variable(assignment.variable@)),
                },
                Frame::Callee(call) => if call.args.len() == 0 {
                    rest.call(value, Seq::empty(), call.closing_paren@)
                } else {
                    rest.with_operand(value).with_frame(Frame::Argument(call, 0)).go(
                        ControlView::Evaluate(&call.args[0]),
                    )
                },
                Frame::Argument(call, number) => if number + 1 < call.args.len() {
                    rest.with_operand(value).with_frame(
                        Frame::Argument(call, (number + 1) as usize),
                    ).go(ControlView::Evaluate(&call.args[number + 1]))
                } else if rest.operands.len() < number + 1 {
                    self.stuck()
                } else {
                    rest.without_operands(number + 1).call(
                        rest.operands[rest.operands.len() - number - 1],
                        rest.operands.subrange(
                            rest.operands.len() - number,
                            rest.operands.len() as int,
                        ).push(value),
                        call.closing_paren@,
                    )
                },
                Frame::PrintText => rest.print(value),
                Frame::Discard => rest.go(ControlView::Completed(None)),
                Frame::Define(declaration) => rest.in_environment(
                    rest.environment.define(declaration.name.lexeme@, value),
                ).go(ControlView::Completed(None)),
                Frame::Branch(statement) => if value.is_truthy() {
                    rest.go(ControlView::Execute(&*statement.then_branch))
                } else {
                    match &statement.else_branch {
                        Some(branch) => rest.go(ControlView::Execute(&**branch)),
                        None => rest.go(ControlView::Completed(None)),
                    }
                },
                Frame::LoopTest(statement) => if value.is_truthy() {
                    rest.with_frame(Frame::LoopBody(statement)).go(
                        ControlView::Execute(&*statement.body),
                    )
                } else {
                    rest.go(ControlView::Completed(None))
                },
                Frame::ReturnValue => rest.go(ControlView::Completed(Some(value))),
                _ => self.stuck(),
            }
        }
    }

    /// The step that tells the frame on top of the stack that a statement is
    /// done. `signal` is the value of the `return` that ended it, if one did.
    ///
    /// A loop goes back to its condition, and a block or a body on to its
    /// next statement, unless there is a signal or the statements have run
    /// out. A block then leaves its scope and passes the signal on. A call
    /// leaves its scope and has its value: the signal's, or `nil`. A program
    /// drops the signal and goes on; when its statements have run out, it has
    /// ended.
    pub open spec fn complete(self, signal: Option<LoxObjectView<'a>>) -> Step<'a> {
        if self.frames.len() == 0 {
            self.stuck()
        } else {
            let rest = self.without_frame();
            match self.frames.last() {
                Frame::LoopBody(statement) => if signal is Some {
                    rest.go(ControlView::Completed(signal))
                } else {
                    rest.with_frame(Frame::LoopTest(statement)).go(
                        ControlView::Evaluate(&statement.condition),
                    )
                },
                Frame::Block { body, next, enclosing } => if signal is None && next < body.len() {
                    rest.with_frame(
                        Frame::Block { body, next: (next + 1) as usize, enclosing },
                    ).go(ControlView::Execute(&body[next as int]))
                } else {
                    rest.in_environment(rest.environment.leave(enclosing)).go(
                        ControlView::Completed(signal),
                    )
                },
                Frame::Call { body, next, caller } => if signal is None && next < body.len() {
                    rest.with_frame(Frame::Call { body, next: (next + 1) as usize, caller }).go(
                        ControlView::Execute(&body[next as int]),
                    )
                } else {
                    rest.in_environment(rest.environment.leave(caller)).go(
                        ControlView::Value(
                            match signal {
                                Some(value) => value,
                                None => LoxObjectView::Nil,
                            },
                        ),
                    )
                },
                Frame::Program { statements, next } => if next < statements.len() {
                    rest.with_frame(
                        Frame::Program { statements, next: (next + 1) as usize },
                    ).go(ControlView::Execute(&statements[next as int]))
                } else {
                    Step {
                        next: rest.with_control(ControlView::Idle),
                        action: ActionView::Finished,
                    }
                },
                _ => self.stuck(),
            }
        }
    }

    /// One step of the machine.
    pub open spec fn step(self) -> Step<'a> {
        match self.control {
            ControlView::Idle => Step { next: self, action: ActionView::Finished },
            ControlView::Waiting(request) => Step { next: self, action: ActionView::Ask(request) },
            ControlView::Evaluate(expr) => self.with_control(ControlView::Idle).evaluate(expr),
            ControlView::Execute(stmt) => self.with_control(ControlView::Idle).execute(stmt),
            ControlView::Value(value) => self.with_control(ControlView::Idle).deliver(value),
            ControlView::Completed(signal) => self.with_control(ControlView::Idle).complete(
                signal,
            ),
        }
    }

    /// The configuration after the answer `value` to the request that the
    /// machine waits for. A machine that waits for nothing takes no answer.
    pub open spec fn answer(self, value: LoxObjectView<'a>) -> Self {
        match self.control {
            ControlView::Waiting(_) => self.with_control(ControlView::Value(value)),
            _ => self,
        }
    }

    /// The configuration of a machine that is about to run the program
    /// `statements` in the global scope. What it was doing before is
    /// dropped; the variables stay.
    pub open spec fn load(self, statements: &'a Vec<Stmt>) -> Self {
        Configuration {
            frames: seq![Frame::Program { statements, next: 0 }],
            control: ControlView::Completed(None),
            ..self.halted()
        }
    }
}

/// Short-circuit: once the left operand of `and` is falsey, or that of
/// `or` truthy, the machine goes on with the value of the left operand and
/// drops the frame that held the right operand. The right operand is never
/// evaluated: the step is the same whatever the right operand is.
pub proof fn lemma_short_circuit<'a>(
    configuration: Configuration<'a>,
    binary: &'a BinaryExpr,
    other: &'a BinaryExpr,
    value: LoxObjectView<'a>,
)
    requires
        configuration.control == ControlView::Value(value),
        configuration.frames.len() > 0,
        configuration.frames.last() == Frame::LogicalRight(binary),
        short_circuits(binary.operator@.kind, value),
        other.operator@.kind == binary.operator@.kind,
    ensures
        configuration.step() == configuration.without_frame().go(ControlView::Value(value)),
        configuration.step() == configuration.without_frame().with_frame(
            Frame::LogicalRight(other),
        ).step(),
{
    let rest = configuration.without_frame();
    let swapped = rest.with_frame(Frame::LogicalRight(other));
    assert(swapped.with_control(ControlView::Idle).without_frame() == rest.with_control(
        ControlView::Idle,
    )) by {
        assert(swapped.frames.drop_last() =~= rest.frames);
    }
}

/// `false and ...` and `nil and ...` short-circuit, and so does `... or ...`
/// after anything but `false` and `nil`.
pub proof fn lemma_when_short_circuits(operator: crate::token::TokenKind, value: LoxObjectView)
    ensures
        operator == crate::token::TokenKind::And ==> (short_circuits(operator, value) <==> (value
            == LoxObjectView::Nil || value == LoxObjectView::Boolean(false))),
        operator == crate::token::TokenKind::Or ==> (short_circuits(operator, value) <==> !(value
            == LoxObjectView::Nil || value == LoxObjectView::Boolean(false))),
{
}

/// Arity: a call with the wrong number of arguments is a runtime error, and
/// nothing of the call happens. No scope is entered and no variable bound,
/// nothing is printed or asked for, and the body is not on the stack: the
/// program is halted.
pub proof fn lemma_wrong_arity<'a>(
    configuration: Configuration<'a>,
    callable: Callable<'a>,
    args: Seq<LoxObjectView<'a>>,
    paren: TokenView,
)
    requires
        args.len() != callable.spec_arity(),
    ensures
        configuration.call(LoxObjectView::Function(callable), args, paren).action
            == ActionView::Fail(arity_error(paren, callable.spec_arity() as nat, args.len())),
        configuration.call(LoxObjectView::Function(callable), args, paren).next.environment.layers
            == configuration.environment.layers,
        configuration.call(LoxObjectView::Function(callable), args, paren).next.frames.len() == 0,
        configuration.call(LoxObjectView::Function(callable), args, paren).next.control
            == ControlView::<'a>::Idle,
        configuration.call(LoxObjectView::Function(callable), args, paren).next.had_error,
{
}

/// A block leaves the scope it entered. Starting on a block takes the
/// machine one scope deeper and leaves a frame on the stack. When that frame
/// is told that its statements have run out, or that a `return` passes
/// through, the machine is back in the scope that was current when the block
/// began, as deep in the chain as it was then: on normal exit and on early
/// return alike. A runtime error halts the program in the global scope.
pub proof fn lemma_block_leaves_its_scope<'a>(
    configuration: Configuration<'a>,
    block: &'a crate::grammar::BlockStmt,
    inside: Configuration<'a>,
    next: usize,
    signal: Option<LoxObjectView<'a>>,
    error: RuntimeErrorView,
)
    requires
        configuration.environment.has(configuration.environment.current as int),
        configuration.environment.layers.len() <= usize::MAX,
        inside.control == ControlView::Completed(signal),
        inside.frames.len() > 0,
        inside.frames.last() == (Frame::Block {
            body: &block.body,
            next,
            enclosing: configuration.environment.current,
        }),
        signal is Some || next >= block.body.len(),
        crate::environment::keeps_chains(configuration.environment, inside.environment),
        configuration.environment.layers.len() < inside.environment.layers.len(),
    ensures
        configuration.execute(&Stmt::Block(*block)).next.frames.last() == (Frame::Block {
            body: &block.body,
            next: 0,
            enclosing: configuration.environment.current,
        }),
        configuration.execute(&Stmt::Block(*block)).next.environment.depth(
            configuration.execute(&Stmt::Block(*block)).next.environment.current as int,
        ) == configuration.environment.depth(configuration.environment.current as int) + 1,
        inside.step().next.environment.current == configuration.environment.current,
        inside.step().next.environment.depth(configuration.environment.current as int)
            == configuration.environment.depth(configuration.environment.current as int),
        inside.step().next.control == ControlView::Completed(signal),
        inside.fail(error).next.environment.current == 0,
{
    crate::environment::lemma_enter_then_leave(configuration.environment);
    crate::environment::lemma_leaving_restores_depth(
        configuration.environment,
        inside.environment,
    );
}

/// A call leaves the scope it entered. When the frame of a call is told
/// that the statements of the body have run out, or that a `return` passes
/// through, the machine is back in the scope of the caller, as deep in the
/// chain as the caller was, and the call has its value: that of the
/// `return`, or `nil`.
pub proof fn lemma_call_leaves_its_scope<'a>(
    before: Configuration<'a>,
    inside: Configuration<'a>,
    body: &'a Vec<Stmt>,
    next: usize,
    signal: Option<LoxObjectView<'a>>,
)
    requires
        before.environment.has(before.environment.current as int),
        inside.control == ControlView::Completed(signal),
        inside.frames.len() > 0,
        inside.frames.last() == (Frame::Call { body, next, caller: before.environment.current }),
        signal is Some || next >= body.len(),
        crate::environment::keeps_chains(before.environment, inside.environment),
        before.environment.layers.len() < inside.environment.layers.len(),
    ensures
        inside.step().next.environment.current == before.environment.current,
        inside.step().next.environment.depth(before.environment.current as int)
            == before.environment.depth(before.environment.current as int),
        inside.step().next.control == ControlView::Value(
            match signal {
                Some(value) => value,
                None => LoxObjectView::Nil,
            },
        ),
        inside.step().next.frames == inside.frames.drop_last(),
{
    crate::environment::lemma_leaving_restores_depth(before.environment, inside.environment);
}

} // verus!
