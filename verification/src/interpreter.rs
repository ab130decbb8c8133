use crate::callable::{Callable, LoxCallable};
use crate::driving::{advance, drive, Run};
use crate::environment::{Environment, EnvironmentView};
use crate::error::error_reporter::{Diagnostic, ErrorReporter};
use crate::error::runtime_error::RuntimeError;
use crate::function::LoxFunction;
use crate::grammar::{BlockStmt, Expr, Stmt};
use crate::machine::{bind_parameters, ActionView, Configuration, ControlView, Frame, Step};
use crate::object::{LoxObject, LoxObjectView};
use crate::operators::{
    evaluate_binary, evaluate_literal, evaluate_logical_expression, evaluate_unary, Evaluation,
    Request,
};
use crate::token::Token;
use crate::util::decimal;
use vstd::prelude::*;
use vstd::string::*;

verus! {

/// What the interpreter is about to do.
#[derive(Debug)]
pub enum Control<'a> {
    /// Nothing: no program is loaded, or the program has ended.
    Idle,
    /// Evaluate the expression.
    Evaluate(&'a Expr),
    /// Execute the statement.
    Execute(&'a Stmt),
    /// Hand the value to the frame on top.
    Value(LoxObject<'a>),
    /// Tell the frame on top that a statement is done, with the value of the
    /// `return` that ended it, if one did.
    Completed(Option<LoxObject<'a>>),
    /// Wait for the answer to the request.
    Waiting(Request),
}

impl<'a> View for Control<'a> {
    type V = ControlView<'a>;

    open spec fn view(&self) -> ControlView<'a> {
        match self {
            Control::Idle => ControlView::Idle,
            Control::Evaluate(expr) => ControlView::Evaluate(expr),
            Control::Execute(stmt) => ControlView::Execute(stmt),
            Control::Value(value) => ControlView::Value(value@),
            Control::Completed(signal) => ControlView::Completed(
                match signal {
                    Some(value) => Some(value@),
                    None => None,
                },
            ),
            Control::Waiting(request) => ControlView::Waiting(request@),
        }
    }
}

/// What the embedding program has to do after a step of the interpreter.
#[derive(Debug, PartialEq)]
pub enum Action {
    /// Nothing: take the next step.
    Continue,
    /// Work out what is asked for and hand it to `answer`, then go on.
    Ask(Request),
    /// Print the text and a line break, then go on.
    Print(String),
    /// Print the environment, then go on.
    PrintEnvironment,
    /// Show the runtime error. The program has been halted.
    Fail(RuntimeError),
    /// Nothing more: the program has ended.
    Finished,
}

impl View for Action {
    type V = ActionView;

    open spec fn view(&self) -> ActionView {
        match self {
            Action::Continue => ActionView::Continue,
            Action::Ask(request) => ActionView::Ask(request@),
            Action::Print(text) => ActionView::Print(text@),
            Action::PrintEnvironment => ActionView::PrintEnvironment,
            Action::Fail(error) => ActionView::Fail(error@),
            Action::Finished => ActionView::Finished,
        }
    }
}

/// The views of a sequence of values, in order.
pub open spec fn object_views<'a>(values: Seq<LoxObject<'a>>) -> Seq<LoxObjectView<'a>> {
    Seq::new(values.len(), |i: int| values[i]@)
}

/// The interpreter is responsible for "running" the program. It does so one
/// step at a time, and leaves to its caller what it cannot do itself:
/// arithmetic on doubles, their numerals, the clock and the terminal.
#[derive(Debug)]
pub struct Interpreter<'a> {
    /// Where runtime errors go.
    pub error_reporter: ErrorReporter,
    /// The scopes and their variables.
    pub environment: Environment<'a>,
    /// The stack of what is left to do, with the next thing last.
    pub frames: Vec<Frame<'a>>,
    /// The values that frames on the stack have put aside, the newest last.
    pub operands: Vec<LoxObject<'a>>,
    /// What the interpreter is about to do.
    pub control: Control<'a>,
}

impl<'a> View for Interpreter<'a> {
    type V = Configuration<'a>;

    open spec fn view(&self) -> Configuration<'a> {
        Configuration {
            environment: self.environment@,
            frames: self.frames@,
            operands: object_views(self.operands@),
            control: self.control@,
            reports: self.error_reporter@,
            had_error: self.error_reporter.had_error,
        }
    }
}

/// The views of a sequence of actions, in order.
pub open spec fn action_views(actions: Seq<Action>) -> Seq<ActionView> {
    Seq::new(actions.len(), |i: int| actions[i]@)
}

/// What `budget` steps of the machine lead to, or fewer where a step asks
/// something of the embedding program or ends the program.
pub open spec fn run_of<'a>(configuration: Configuration<'a>, budget: nat) -> Step<'a>
    decreases budget,
{
    if budget == 0 {
        Step { next: configuration, action: ActionView::Continue }
    } else {
        let step = configuration.step();
        if step.action == ActionView::Continue {
            run_of(step.next, (budget - 1) as nat)
        } else {
            step
        }
    }
}

impl<'a> Interpreter<'a> {
    /// The configuration of a new interpreter.
    pub open spec fn new_view() -> Configuration<'a> {
        Configuration {
            environment: EnvironmentView::<'a>::initial(),
            frames: Seq::empty(),
            operands: Seq::empty(),
            control: ControlView::Idle,
            reports: Seq::empty(),
            had_error: false,
        }
    }

    /// Constructs a new interpreter for running a Lox program: no program is
    /// loaded, and the built-in functions are defined in the global scope.
    pub fn new() -> (interpreter: Self)
        ensures
            interpreter@ == Self::new_view(),
    {
        let interpreter = Self {
            error_reporter: ErrorReporter::new(),
            environment: Environment::new(),
            frames: Vec::new(),
            operands: Vec::new(),
            control: Control::Idle,
        };
        assert(interpreter@.operands =~= Seq::empty());
        interpreter
    }

    /// Loads a list of Lox statements, to be executed in the global scope.
    /// The steps that execute them are then taken by `step` or `run`.
    pub fn interpret(&mut self, stmts: &'a Vec<Stmt>)
        ensures
            final(self)@ == old(self)@.load(stmts),
    {
        self.halt();
        self.frames.push(Frame::Program { statements: stmts, next: 0 });
        self.control = Control::Completed(None);
        assert(self@.frames =~= seq![Frame::Program { statements: stmts, next: 0 }]);
    }

    /// Takes one step.
    pub fn step(&mut self) -> (action: Action)
        ensures
            (Step { next: final(self)@, action: action@ }) == old(self)@.step(),
    {
        let mut control = Control::Idle;
        std::mem::swap(&mut self.control, &mut control);
        match control {
            Control::Idle => Action::Finished,
            Control::Waiting(request) => {
                let action = Action::Ask(request.clone());
                self.control = Control::Waiting(request);
                action
            },
            Control::Evaluate(expr) => self.evaluate(expr),
            Control::Execute(stmt) => self.execute(stmt),
            Control::Value(value) => self.deliver(value),
            Control::Completed(signal) => self.complete(signal),
        }
    }

    /// Takes steps until one asks something of the caller or ends the
    /// program, and `budget` steps at most. The action of the last step is
    /// returned: `Continue` where the budget ran out.
    pub fn run(&mut self, budget: usize) -> (action: Action)
        ensures
            (Step { next: final(self)@, action: action@ }) == run_of(old(self)@, budget as nat),
    {
        let mut left = budget;
        while left > 0
            invariant
                run_of(self@, left as nat) == run_of(old(self)@, budget as nat),
            decreases left,
        {
            let action = self.step();
            match action {
                Action::Continue => {},
                _ => {
                    return action;
                },
            }
            left -= 1;
        }
        Action::Continue
    }

    /// Takes `steps` steps with the answers at hand: what a step asks is
    /// answered at once with the next of `answers`, as long as there are
    /// any. Gives the answers that are left, and what the steps asked and
    /// told, in order.
    pub fn replay(&mut self, answers: Vec<LoxObject<'a>>, steps: usize) -> (result: (
        Vec<LoxObject<'a>>,
        Vec<Action>,
    ))
        ensures
            (Run {
                configuration: final(self)@,
                answers: object_views(result.0@),
                actions: action_views(result.1@),
            }) == drive(
                Run {
                    configuration: old(self)@,
                    answers: object_views(answers@),
                    actions: Seq::empty(),
                },
                steps as nat,
            ),
    {
        let mut answers = answers;
        let mut actions: Vec<Action> = Vec::new();
        let mut used: usize = 0;
        let mut left = steps;
        let ghost all = object_views(answers@);
        let ghost goal = drive(
            Run { configuration: self@, answers: all, actions: Seq::empty() },
            steps as nat,
        );
        assert(action_views(actions@) =~= Seq::empty());
        assert(all.subrange(0, all.len() as int) =~= all);
        while left > 0
            invariant
                used <= answers.len(),
                object_views(answers@) == all,
                drive(
                    Run {
                        configuration: self@,
                        answers: all.subrange(used as int, all.len() as int),
                        actions: action_views(actions@),
                    },
                    left as nat,
                ) == goal,
            decreases left,
        {
            let ghost run = Run {
                configuration: self@,
                answers: all.subrange(used as int, all.len() as int),
                actions: action_views(actions@),
            };
            let ghost noted = action_views(actions@);
            proof {
                reveal(advance);
            }
            let action = self.step();
            match action {
                Action::Continue => {},
                Action::Ask(request) => {
                    if used < answers.len() {
                        self.answer(answers[used].clone());
                        used += 1;
                        proof {
                            assert(run.answers.drop_first() =~= all.subrange(
                                used as int,
                                all.len() as int,
                            ));
                        }
                    }
                    actions.push(Action::Ask(request));
                    assert(action_views(actions@) =~= noted.push(action@));
                },
                other => {
                    actions.push(other);
                    assert(action_views(actions@) =~= noted.push(action@));
                },
            }
            left -= 1;
        }
        let rest = answers.split_off(used);
        assert(object_views(rest@) =~= all.subrange(used as int, all.len() as int));
        (rest, actions)
    }

    /// Hands the interpreter the answer to the request that it waits for.
    /// An interpreter that waits for nothing takes no answer.
    pub fn answer(&mut self, value: LoxObject<'a>)
        ensures
            final(self)@ == old(self)@.answer(value@),
    {
        match &self.control {
            Control::Waiting(_) => {
                self.control = Control::Value(value);
            },
            _ => {},
        }
    }

    /// Drops the program: nothing is left to do, and the program is back in
    /// the global scope.
    fn halt(&mut self)
        ensures
            final(self)@ == old(self)@.halted(),
    {
        self.frames.clear();
        self.operands.clear();
        self.environment.home();
        self.control = Control::Idle;
        assert(self@.operands =~= Seq::empty());
    }

    /// Goes on with the control `control`.
    fn go(&mut self, control: Control<'a>) -> (action: Action)
        ensures
            (Step { next: final(self)@, action: action@ }) == old(self)@.go(control@),
    {
        self.control = control;
        Action::Continue
    }

    /// Asks the caller for `request`.
    fn ask(&mut self, request: Request) -> (action: Action)
        ensures
            (Step { next: final(self)@, action: action@ }) == old(self)@.ask(request@),
    {
        let action = Action::Ask(request.clone());
        self.control = Control::Waiting(request);
        action
    }

    /// Reports a runtime error and halts the program.
    fn fail(&mut self, error: RuntimeError) -> (action: Action)
        ensures
            (Step { next: final(self)@, action: action@ }) == old(self)@.fail(error@),
    {
        self.halt();
        self.error_reporter.error(Diagnostic::Runtime(error.clone()));
        Action::Fail(error)
    }

    /// Halts a machine whose stack does not fit its control.
    fn stuck(&mut self) -> (action: Action)
        ensures
            (Step { next: final(self)@, action: action@ }) == old(self)@.stuck(),
    {
        self.halt();
        Action::Finished
    }

    /// Goes on after an evaluation: with the value, a request for it, or the
    /// error.
    fn settle(&mut self, evaluation: Evaluation<'a>) -> (action: Action)
        ensures
            (Step { next: final(self)@, action: action@ }) == old(self)@.settle(evaluation@),
    {
        match evaluation {
            Evaluation::Value(value) => self.go(Control::Value(value)),
            Evaluation::Ask(request) => self.ask(request),
            Evaluation::Error(error) => self.fail(error),
        }
    }

    /// Puts `frame` on top of the stack.
    fn push_frame(&mut self, frame: Frame<'a>)
        ensures
            final(self)@ == old(self)@.with_frame(frame),
    {
        self.frames.push(frame);
    }

    /// Takes the frame on top off the stack.
    fn pop_frame(&mut self) -> (frame: Option<Frame<'a>>)
        ensures
            match frame {
                Some(frame) => old(self)@.frames.len() > 0 && frame == old(self)@.frames.last()
                    && final(self)@ == old(self)@.without_frame(),
                None => old(self)@.frames.len() == 0 && final(self)@ == old(self)@,
            },
    {
        let frame = self.frames.pop();
        if frame.is_some() {
            assert(self@.frames =~= old(self)@.frames.drop_last());
        }
        frame
    }

    /// Puts `value` aside as the newest operand.
    fn push_operand(&mut self, value: LoxObject<'a>)
        ensures
            final(self)@ == old(self)@.with_operand(value@),
    {
        self.operands.push(value);
        assert(self@.operands =~= old(self)@.operands.push(value@));
    }

    /// Takes the newest operand back.
    fn pop_operand(&mut self) -> (value: Option<LoxObject<'a>>)
        ensures
            match value {
                Some(value) => old(self)@.operands.len() > 0 && value@ == old(
                    self,
                )@.operands.last() && final(self)@ == old(self)@.without_operands(1),
                None => old(self)@.operands.len() == 0 && final(self)@ == old(self)@,
            },
    {
        let value = self.operands.pop();
        if value.is_some() {
            assert(self@.operands =~= old(self)@.operands.subrange(
                0,
                old(self)@.operands.len() - 1,
            ));
        }
        value
    }

    /// Prints `value`. The text of a number is asked for first, and printed
    /// when it comes back.
    fn print(&mut self, value: LoxObject<'a>) -> (action: Action)
        ensures
            (Step { next: final(self)@, action: action@ }) == old(self)@.print(value@),
    {
        let text = match value {
            LoxObject::Number(number) => {
                self.push_frame(Frame::PrintText);
                return self.ask(Request::Format(number));
            },
            LoxObject::String(text) => text,
            LoxObject::Boolean(boolean) => if boolean {
                String::from_str("true")
            } else {
                String::from_str("false")
            },
            LoxObject::Nil => String::from_str("nil"),
            LoxObject::Function(callable) => {
                let mut text = String::from_str("<fn ");
                text.append(callable.name().as_str());
                text.append(">");
                text
            },
        };
        self.control = Control::Value(LoxObject::Nil);
        Action::Print(text)
    }

    /// Calls `callee` with the arguments `args`. The call stands in front of
    /// the closing parenthesis `paren`.
    pub fn evaluate_call_expr(
        &mut self,
        callee: LoxObject<'a>,
        args: Vec<LoxObject<'a>>,
        paren: &Token,
    ) -> (action: Action)
        ensures
            (Step { next: final(self)@, action: action@ }) == old(self)@.call(
                callee@,
                object_views(args@),
                paren@,
            ),
    {
        let callable = match callee {
            LoxObject::Function(callable) => callable,
            _ => {
                return self.fail(
                    RuntimeError::new(
                        paren.clone(),
                        String::from_str("Can only call functions and classes."),
                    ),
                );
            },
        };
        if args.len() != callable.arity() {
            let mut message = String::from_str("Expected ");
            message.append(decimal(callable.arity()).as_str());
            message.append(" arguments but got ");
            message.append(decimal(args.len()).as_str());
            return self.fail(RuntimeError::new(paren.clone(), message));
        }
        match callable {
            Callable::Clock(_) => self.ask(Request::Clock),
            Callable::PrintEnv(_) => {
                self.control = Control::Value(LoxObject::Nil);
                Action::PrintEnvironment
            },
            Callable::Print(_) => self.print(args[0].clone()),
            Callable::Function(function) => {
                let caller = self.environment.enter(function.closure);
                let params = &function.declaration.params;
                let ghost entered = self.environment@;
                let mut i: usize = 0;
                while i < params.len()
                    invariant
                        i <= params.len(),
                        params.len() == args.len(),
                        self.frames == old(self).frames,
                        self.operands == old(self).operands,
                        self.error_reporter == old(self).error_reporter,
                        self.control == old(self).control,
                        bind_parameters(
                            self.environment@,
                            params@,
                            object_views(args@),
                            i as int,
                        ) == bind_parameters(entered, params@, object_views(args@), 0),
                    decreases params.len() - i,
                {
                    // Define all the arguments of the function as local
                    // variables
                    self.environment.define(&params[i].lexeme, args[i].clone());
                    i += 1;
                }
                self.push_frame(Frame::Call { body: &function.declaration.body, next: 0, caller });
                self.go(Control::Completed(None))
            },
        }
    }

    /// Starts on the evaluation of an expression.
    fn evaluate(&mut self, expr: &'a Expr) -> (action: Action)
        ensures
            (Step { next: final(self)@, action: action@ }) == old(self)@.evaluate(expr),
    {
        match expr {
            Expr::Binary(binary) => {
                self.push_frame(Frame::BinaryRight(binary));
                self.go(Control::Evaluate(&*binary.lhs))
            },
            // For a grouping, just evaluate the inner expression.
            Expr::Grouping(grouping) => self.go(Control::Evaluate(&*grouping.expr)),
            Expr::Literal(literal) => self.settle(evaluate_literal(&literal.token)),
            Expr::Unary(unary) => {
                self.push_frame(Frame::UnaryApply(unary));
                self.go(Control::Evaluate(&*unary.rhs))
            },
            // For a variable, just lookup the variable in the environment.
            Expr::Variable(variable) => match self.environment.get(&variable.name) {
                Ok(value) => self.go(Control::Value(value)),
                Err(error) => self.fail(error),
            },
            Expr::Assignment(assignment) => {
                self.push_frame(Frame::Assign(assignment));
                self.go(Control::Evaluate(&*assignment.expr))
            },
            Expr::Logical(binary) => {
                self.push_frame(Frame::LogicalRight(binary));
                self.go(Control::Evaluate(&*binary.lhs))
            },
            Expr::Call(call) => {
                self.push_frame(Frame::Callee(call));
                self.go(Control::Evaluate(&*call.callee))
            },
        }
    }

    /// Starts on the execution of a single Lox statement.
    pub fn execute(&mut self, stmt: &'a Stmt) -> (action: Action)
        ensures
            (Step { next: final(self)@, action: action@ }) == old(self)@.execute(stmt),
    {
        match stmt {
            Stmt::Expression(statement) => {
                self.push_frame(Frame::Discard);
                self.go(Control::Evaluate(&statement.expr))
            },
            Stmt::VariableDeclaration(declaration) => match &declaration.initializer {
                Some(initializer) => {
                    self.push_frame(Frame::Define(declaration));
                    self.go(Control::Evaluate(initializer))
                },
                None => {
                    // Without an initializer the variable is nil.
                    self.environment.define(&declaration.name.lexeme, LoxObject::Nil);
                    self.go(Control::Completed(None))
                },
            },
            Stmt::Block(block) => self.execute_block(block),
            Stmt::If(statement) => {
                self.push_frame(Frame::Branch(statement));
                self.go(Control::Evaluate(&statement.condition))
            },
            Stmt::While(statement) => {
                self.push_frame(Frame::LoopTest(statement));
                self.go(Control::Evaluate(&statement.condition))
            },
            Stmt::FunctionDeclaration(declaration) => {
                // Create a value for the function and define it in the
                // current scope, which the function closes over.
                let function = LoxFunction::from(declaration, self.environment.current());
                self.environment.define(
                    &declaration.name.lexeme,
                    LoxObject::Function(Callable::Function(function)),
                );
                self.environment.capture();
                self.go(Control::Completed(None))
            },
            Stmt::Return(statement) => match &statement.value {
                Some(value) => {
                    self.push_frame(Frame::ReturnValue);
                    self.go(Control::Evaluate(value))
                },
                // Without a value the function returns nil.
                None => self.go(Control::Completed(Some(LoxObject::Nil))),
            },
        }
    }

    /// Starts on the execution of a block statement: in a new scope, which
    /// the frame that is left on the stack will leave again.
    pub fn execute_block(&mut self, block: &'a BlockStmt) -> (action: Action)
        ensures
            (Step { next: final(self)@, action: action@ }) == old(self)@.execute(
                &Stmt::Block(*block),
            ),
    {
        let enclosing = self.environment.push_scope();
        self.push_frame(Frame::Block { body: &block.body, next: 0, enclosing });
        self.go(Control::Completed(None))
    }

    /// Hands `value` to the frame on top of the stack.
    fn deliver(&mut self, value: LoxObject<'a>) -> (action: Action)
        ensures
            (Step { next: final(self)@, action: action@ }) == old(self)@.deliver(value@),
    {
        let frame = match self.frames.last() {
            Some(frame) => *frame,
            None => {
                return self.stuck();
            },
        };
        match frame {
            Frame::BinaryRight(binary) => {
                self.pop_frame();
                self.push_operand(value);
                self.push_frame(Frame::BinaryApply(binary));
                self.go(Control::Evaluate(&*binary.rhs))
            },
            Frame::BinaryApply(binary) => {
                if self.operands.len() == 0 {
                    return self.stuck();
                }
                self.pop_frame();
                match self.pop_operand() {
                    Some(left) => self.settle(evaluate_binary(&binary.operator, left, value)),
                    None => self.stuck(),
                }
            },
            Frame::LogicalRight(binary) => {
                self.pop_frame();
                if evaluate_logical_expression(&binary.operator, &value) {
                    // Short circuit
                    self.go(Control::Value(value))
                } else {
                    // Doesn't short circuit, must evaluate rhs
                    self.go(Control::Evaluate(&*binary.rhs))
                }
            },
            Frame::UnaryApply(unary) => {
                self.pop_frame();
                self.settle(evaluate_unary(&unary.operator, value))
            },
            Frame::Assign(assignment) => {
                self.pop_frame();
                // Update the variable in the environment to be the value of
                // the expression, which is the value of the assignment.
                match self.environment.assign(&assignment.variable, value.clone()) {
                    Ok(_) => self.go(Control::Value(value)),
                    Err(error) => self.fail(error),
                }
            },
            Frame::Callee(call) => {
                self.pop_frame();
                if call.args.len() == 0 {
                    let args: Vec<LoxObject<'a>> = Vec::new();
                    assert(object_views(args@) =~= Seq::empty());
                    self.evaluate_call_expr(value, args, &call.closing_paren)
                } else {
                    self.push_operand(value);
                    self.push_frame(Frame::Argument(call, 0));
                    self.go(Control::Evaluate(&call.args[0]))
                }
            },
            Frame::Argument(call, number) => {
                if number < usize::MAX && number + 1 < call.args.len() {
                    self.pop_frame();
                    self.push_operand(value);
                    self.push_frame(Frame::Argument(call, number + 1));
                    self.go(Control::Evaluate(&call.args[number + 1]))
                } else if number >= self.operands.len() {
                    self.stuck()
                } else {
                    self.pop_frame();
                    let ghost operands = object_views(self.operands@);
                    let mut args = self.operands.split_off(self.operands.len() - number);
                    args.push(value);
                    proof {
                        assert(object_views(args@) =~= operands.subrange(
                            operands.len() - number,
                            operands.len() as int,
                        ).push(value@));
                        assert(object_views(self.operands@) =~= operands.subrange(
                            0,
                            operands.len() - number,
                        ));
                    }
                    match self.pop_operand() {
                        Some(callee) => {
                            assert(self@.operands =~= operands.subrange(
                                0,
                                operands.len() - number - 1,
                            ));
                            self.evaluate_call_expr(callee, args, &call.closing_paren)
                        },
                        None => self.stuck(),
                    }
                }
            },
            Frame::PrintText => {
                self.pop_frame();
                self.print(value)
            },
            Frame::Discard => {
                self.pop_frame();
                self.go(Control::Completed(None))
            },
            Frame::Define(declaration) => {
                self.pop_frame();
                // Define the variable in the current scope.
                self.environment.define(&declaration.name.lexeme, value);
                self.go(Control::Completed(None))
            },
            Frame::Branch(statement) => {
                self.pop_frame();
                if value.is_truthy() {
                    // If the condition evaluates to true, execute the if
                    // branch.
                    self.go(Control::Execute(&*statement.then_branch))
                } else {
                    match &statement.else_branch {
                        // If the condition evaluates to false and there's an
                        // else branch, execute it.
                        Some(branch) => self.go(Control::Execute(&**branch)),
                        // We never executed anything.
                        None => self.go(Control::Completed(None)),
                    }
                }
            },
            Frame::LoopTest(statement) => {
                self.pop_frame();
                if value.is_truthy() {
                    self.push_frame(Frame::LoopBody(statement));
                    self.go(Control::Execute(&*statement.body))
                } else {
                    self.go(Control::Completed(None))
                }
            },
            Frame::ReturnValue => {
                self.pop_frame();
                self.go(Control::Completed(Some(value)))
            },
            _ => self.stuck(),
        }
    }

    /// Tells the frame on top of the stack that a statement is done.
    /// `signal` is the value of the `return` that ended it, if one did.
    fn complete(&mut self, signal: Option<LoxObject<'a>>) -> (action: Action)
        ensures
            (Step { next: final(self)@, action: action@ }) == old(self)@.complete(
                match signal {
                    Some(value) => Some(value@),
                    None => None,
                },
            ),
    {
        let frame = match self.frames.last() {
            Some(frame) => *frame,
            None => {
                return self.stuck();
            },
        };
        match frame {
            Frame::LoopBody(statement) => {
                self.pop_frame();
                if signal.is_some() {
                    // We hit a return statement: pass its value on.
                    self.go(Control::Completed(signal))
                } else {
                    self.push_frame(Frame::LoopTest(statement));
                    self.go(Control::Evaluate(&statement.condition))
                }
            },
            Frame::Block { body, next, enclosing } => {
                self.pop_frame();
                if signal.is_none() && next < body.len() {
                    self.push_frame(Frame::Block { body, next: next + 1, enclosing });
                    self.go(Control::Execute(&body[next]))
                } else {
                    self.environment.leave(enclosing);
                    self.go(Control::Completed(signal))
                }
            },
            Frame::Call { body, next, caller } => {
                self.pop_frame();
                if signal.is_none() && next < body.len() {
                    self.push_frame(Frame::Call { body, next: next + 1, caller });
                    self.go(Control::Execute(&body[next]))
                } else {
                    self.environment.leave(caller);
                    // The result of the function: what it returned, or nil.
                    let value = match signal {
                        Some(value) => value,
                        None => LoxObject::Nil,
                    };
                    self.go(Control::Value(value))
                }
            },
            Frame::Program { statements, next } => {
                self.pop_frame();
                if next < statements.len() {
                    self.push_frame(Frame::Program { statements, next: next + 1 });
                    self.go(Control::Execute(&statements[next]))
                } else {
                    self.control = Control::Idle;
                    Action::Finished
                }
            },
            _ => self.stuck(),
        }
    }
}

} // verus!
