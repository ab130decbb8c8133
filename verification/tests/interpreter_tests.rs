use rust_lox_impl::error::runtime_error::RuntimeError;
use rust_lox_impl::grammar::Stmt;
use rust_lox_impl::interpreter::{Action, Interpreter};
use rust_lox_impl::lox::Lox;
use rust_lox_impl::object::{LoxObject, Number};
use rust_lox_impl::operators::{ArithmeticOp, Request};

fn number(value: f64) -> LoxObject<'static> {
    LoxObject::Number(Number { bits: value.to_bits() })
}

fn double(number: Number) -> f64 {
    f64::from_bits(number.bits)
}

/// Carries out a request of the interpreter with the machine's doubles.
fn serve(request: Request) -> LoxObject<'static> {
    match request {
        Request::Decode(numeral) => number(numeral.parse::<f64>().unwrap()),
        Request::Arithmetic(op, left, right) => {
            let (l, r) = (double(left), double(right));
            number(match op {
                ArithmeticOp::Add => l + r,
                ArithmeticOp::Subtract => l - r,
                ArithmeticOp::Multiply => l * r,
                ArithmeticOp::Divide => l / r,
            })
        }
        Request::Format(n) => LoxObject::String(format!("{}", double(n))),
        Request::Clock => number(1.5),
    }
}

/// Runs a loaded interpreter to the end of its program. Gives what the
/// program printed and the runtime error that halted it, if one did.
fn drive<'a>(interpreter: &mut Interpreter<'a>) -> (Vec<String>, Option<RuntimeError>) {
    let mut printed = Vec::new();
    loop {
        match interpreter.run(1000) {
            Action::Continue => {}
            Action::Ask(request) => interpreter.answer(serve(request)),
            Action::Print(text) => printed.push(text),
            Action::PrintEnvironment => printed.push(String::from("<environment>")),
            Action::Fail(error) => return (printed, Some(error)),
            Action::Finished => return (printed, None),
        }
    }
}

fn compile(source: &str) -> Vec<Stmt> {
    let (stmts, reporter) = Lox::compile(source.to_string());
    assert!(!reporter.had_error, "{:?}", reporter.diagnostics);
    stmts
}

fn output(source: &str) -> Vec<String> {
    let stmts = compile(source);
    let mut interpreter = Interpreter::new();
    interpreter.interpret(&stmts);
    let (printed, error) = drive(&mut interpreter);
    assert!(error.is_none(), "{:?}", error);
    printed
}

fn failure(source: &str) -> (Vec<String>, String) {
    let stmts = compile(source);
    let mut interpreter = Interpreter::new();
    interpreter.interpret(&stmts);
    let (printed, error) = drive(&mut interpreter);
    assert!(interpreter.error_reporter.had_error);
    match error {
        Some(RuntimeError::WithMsg(_, message)) => (printed, message),
        None => panic!("no runtime error"),
    }
}

#[test]
fn prints_a_sum() {
    assert_eq!(output("print(1 + 2);"), vec!["3"]);
}

#[test]
fn joins_strings() {
    assert_eq!(output("var a = \"hi\"; var b = \" there\"; print(a + b);"), vec!["hi there"]);
}

#[test]
fn while_loop_counts() {
    assert_eq!(
        output("var i = 0; while (i < 3) { print(i); i = i + 1; }"),
        vec!["0", "1", "2"]
    );
}

#[test]
fn for_loop_counts() {
    assert_eq!(output("for (var i = 0; i < 3; i = i + 1) print(i);"), vec!["0", "1", "2"]);
}

#[test]
fn recursion_computes_fibonacci() {
    assert_eq!(
        output("fun fib(n) { if (n < 2) return n; return fib(n-1) + fib(n-2); } print(fib(10));"),
        vec!["55"]
    );
}

#[test]
fn closure_keeps_its_counter() {
    assert_eq!(
        output(
            "fun make() { var x = 0; fun inc() { x = x + 1; return x; } return inc; } \
             var c = make(); print(c()); print(c()); print(c());"
        ),
        vec!["1", "2", "3"]
    );
}

#[test]
fn closure_sees_its_own_scope() {
    assert_eq!(
        output("fun make() { var x = 1; fun get() { return x; } return get; } print(make()());"),
        vec!["1"]
    );
}

#[test]
fn closure_ignores_later_outer_definition() {
    assert_eq!(
        output(
            "fun make() { var x = 1; fun get() { return x; } return get; } \
             var g = make(); var x = 2; print(g()); print(x);"
        ),
        vec!["1", "2"]
    );
}

#[test]
fn two_closures_have_separate_counters() {
    assert_eq!(
        output(
            "fun make() { var x = 0; fun inc() { x = x + 1; return x; } return inc; } \
             var a = make(); var b = make(); print(a()); print(a()); print(b());"
        ),
        vec!["1", "2", "1"]
    );
}

#[test]
fn adding_string_and_number_fails() {
    let (printed, message) = failure("print(\"a\" + 1);");
    assert!(printed.is_empty());
    assert_eq!(message, "Can only add number + number or concatenate string + string");
}

#[test]
fn uninitialized_variable_is_nil() {
    assert_eq!(output("var x; print(x);"), vec!["nil"]);
}

#[test]
fn undefined_variable_fails() {
    let (_, message) = failure("print(y);");
    assert_eq!(message, "Undefined variable y");
}

#[test]
fn first_runtime_error_halts_the_script() {
    let (printed, _) = failure("print(1); print(y); print(2);");
    assert_eq!(printed, vec!["1"]);
}

#[test]
fn and_short_circuits_on_falsey() {
    assert_eq!(
        output("fun side() { print(\"evaluated\"); return true; } print(false and side());"),
        vec!["false"]
    );
    assert_eq!(
        output("fun side() { print(\"evaluated\"); return true; } print(nil and side());"),
        vec!["nil"]
    );
    assert_eq!(
        output("fun side() { print(\"evaluated\"); return 7; } print(true and side());"),
        vec!["evaluated", "7"]
    );
}

#[test]
fn or_short_circuits_on_truthy() {
    assert_eq!(
        output("fun side() { print(\"evaluated\"); return true; } print(true or side());"),
        vec!["true"]
    );
    assert_eq!(
        output("fun side() { print(\"evaluated\"); return 7; } print(false or side());"),
        vec!["evaluated", "7"]
    );
    assert_eq!(output("print(0 or 1); print(\"\" or 1);"), vec!["0", ""]);
}

#[test]
fn zero_and_empty_string_are_truthy() {
    assert_eq!(
        output("if (0) print(\"zero\"); if (\"\") print(\"empty\"); if (nil) print(\"nil\"); else print(\"not nil\");"),
        vec!["zero", "empty", "not nil"]
    );
}

#[test]
fn wrong_arity_fails_without_running_the_body() {
    let (printed, message) = failure("fun f(a, b) { print(\"body\"); } f(1);");
    assert!(printed.is_empty());
    assert_eq!(message, "Expected 2 arguments but got 1");
    let (printed, message) = failure("fun f() { print(\"body\"); } f(1, 2, 3);");
    assert!(printed.is_empty());
    assert_eq!(message, "Expected 0 arguments but got 3");
}

#[test]
fn calling_a_number_fails() {
    let (_, message) = failure("var f = 3; f();");
    assert_eq!(message, "Can only call functions and classes.");
}

#[test]
fn arguments_are_evaluated_left_to_right() {
    assert_eq!(
        output(
            "fun show(x) { print(x); return x; } fun three(a, b, c) { return a + b + c; } \
             print(three(show(1), show(2), show(3)));"
        ),
        vec!["1", "2", "3", "6"]
    );
}

#[test]
fn arithmetic_and_comparison() {
    assert_eq!(
        output("print(7 - 2 * 3); print((1 + 2) * 3); print(10 / 4); print(-3 + 1);"),
        vec!["1", "9", "2.5", "-2"]
    );
    assert_eq!(
        output("print(1 < 2); print(2 <= 2); print(1 > 2); print(2 >= 3); print(1 == 1); print(1 != 1);"),
        vec!["true", "true", "false", "false", "true", "false"]
    );
}

#[test]
fn division_by_zero_is_no_error() {
    assert_eq!(output("print(1 / 0); print(-1 / 0); print(0 / 0 == 0 / 0);"), vec!["inf", "-inf", "false"]);
}

#[test]
fn equality_over_the_kinds_of_value() {
    assert_eq!(
        output(
            "fun f() {} print(nil == nil); print(\"a\" == \"a\"); print(\"a\" == \"b\"); \
             print(true == true); print(1 == \"1\"); print(f == f); print(f != f); print(nil == false);"
        ),
        vec!["true", "true", "false", "true", "false", "false", "true", "false"]
    );
}

#[test]
fn unary_operators() {
    assert_eq!(
        output("print(!true); print(!nil); print(!0); print(-(2)); print(--2);"),
        vec!["false", "true", "false", "-2", "2"]
    );
    let (_, message) = failure("print(-\"a\");");
    assert_eq!(message, "Unary '-' can only be applied to numbers.");
}

#[test]
fn comparison_of_strings_fails() {
    let (_, message) = failure("print(\"a\" < \"b\");");
    assert_eq!(message, "Operator `<` only applies to number types");
}

#[test]
fn blocks_scope_their_variables() {
    assert_eq!(
        output("var a = 1; { var a = 2; print(a); { a = 3; } print(a); } print(a);"),
        vec!["2", "3", "1"]
    );
    let (printed, message) = failure("{ var inner = 1; } print(inner);");
    assert!(printed.is_empty());
    assert_eq!(message, "Undefined variable inner");
}

#[test]
fn assignment_is_an_expression() {
    assert_eq!(output("var a; var b; a = b = 4; print(a); print(b); print(a = 5);"), vec!["4", "4", "5"]);
    let (_, message) = failure("z = 1;");
    assert_eq!(message, "Undefined variable z");
}

#[test]
fn return_leaves_loops_and_blocks() {
    assert_eq!(
        output(
            "fun find() { var i = 0; while (true) { { if (i == 3) { return i; } } i = i + 1; } } \
             print(find()); var after = 1; print(after);"
        ),
        vec!["3", "1"]
    );
}

#[test]
fn function_without_return_gives_nil() {
    assert_eq!(output("fun f() { 1 + 1; } print(f()); fun g() { return; } print(g());"), vec!["nil", "nil"]);
}

#[test]
fn functions_and_builtins_have_a_text() {
    assert_eq!(
        output("fun f() {} print(f); print(clock); print(print); print(print_env);"),
        vec!["<fn f>", "<fn clock>", "<fn print>", "<fn print_env>"]
    );
}

#[test]
fn builtins_are_called() {
    assert_eq!(output("print(clock()); print(print(1)); print_env();"), vec!["1.5", "1", "nil", "<environment>"]);
}

#[test]
fn scopes_are_released_after_blocks_and_calls() {
    let stmts = compile(
        "fun f(n) { { var x = n; } return n; } var i = 0; while (i < 50) { { f(i); } i = i + 1; }",
    );
    let mut interpreter = Interpreter::new();
    interpreter.interpret(&stmts);
    let (_, error) = drive(&mut interpreter);
    assert!(error.is_none());
    assert_eq!(interpreter.environment.layers.len(), 1);
    assert_eq!(interpreter.environment.depth(), 1);
}

#[test]
fn the_prompt_keeps_variables_between_lines() {
    let first = compile("var a = 1; fun twice(x) { return x * 2; }");
    let second = compile("print(twice(a + 1));");
    let mut interpreter = Interpreter::new();
    interpreter.interpret(&first);
    assert_eq!(drive(&mut interpreter).0, Vec::<String>::new());
    interpreter.interpret(&second);
    assert_eq!(drive(&mut interpreter).0, vec!["4"]);
}

#[test]
fn the_prompt_goes_on_after_an_error() {
    let first = compile("var a = 1; { var b = 2; print(missing); }");
    let second = compile("print(a);");
    let mut interpreter = Interpreter::new();
    interpreter.interpret(&first);
    assert!(drive(&mut interpreter).1.is_some());
    assert_eq!(interpreter.environment.current(), 0);
    interpreter.interpret(&second);
    assert_eq!(drive(&mut interpreter), (vec![String::from("1")], None));
}

#[test]
fn step_by_step() {
    let stmts = compile("print(\"x\");");
    let mut interpreter = Interpreter::new();
    assert_eq!(interpreter.step(), Action::Finished);
    interpreter.interpret(&stmts);
    let mut steps = 0;
    let mut action = interpreter.step();
    while action == Action::Continue {
        steps += 1;
        action = interpreter.step();
    }
    assert_eq!(action, Action::Print(String::from("x")));
    assert!(steps > 3);
    assert_eq!(interpreter.run(0), Action::Continue);
    assert_eq!(interpreter.run(100), Action::Finished);
}

#[test]
fn a_waiting_interpreter_asks_again() {
    let stmts = compile("1 + 2;");
    let mut interpreter = Interpreter::new();
    interpreter.interpret(&stmts);
    let asked = interpreter.run(100);
    assert_eq!(asked, Action::Ask(Request::Decode(String::from("1"))));
    assert_eq!(interpreter.step(), asked);
    interpreter.answer(number(1.0));
    assert_eq!(interpreter.run(100), Action::Ask(Request::Decode(String::from("2"))));
    interpreter.answer(number(2.0));
    assert_eq!(
        interpreter.run(100),
        Action::Ask(Request::Arithmetic(
            ArithmeticOp::Add,
            Number { bits: 1.0f64.to_bits() },
            Number { bits: 2.0f64.to_bits() }
        ))
    );
    interpreter.answer(number(3.0));
    assert_eq!(interpreter.run(100), Action::Finished);
}

#[test]
fn replay_takes_its_answers_in_order() {
    let stmts = compile("print(1 + 2);");
    let mut interpreter = Interpreter::new();
    interpreter.interpret(&stmts);
    let answers = vec![
        number(1.0),
        number(2.0),
        number(3.0),
        LoxObject::String(String::from("3")),
        LoxObject::Nil,
    ];
    let (rest, actions) = interpreter.replay(answers, 200);
    assert_eq!(rest.len(), 1);
    let three = Number { bits: 3.0f64.to_bits() };
    assert_eq!(
        actions[..6],
        [
            Action::Ask(Request::Decode(String::from("1"))),
            Action::Ask(Request::Decode(String::from("2"))),
            Action::Ask(Request::Arithmetic(
                ArithmeticOp::Add,
                Number { bits: 1.0f64.to_bits() },
                Number { bits: 2.0f64.to_bits() }
            )),
            Action::Ask(Request::Format(three)),
            Action::Print(String::from("3")),
            Action::Finished,
        ]
    );
    assert!(actions[6..].iter().all(|action| *action == Action::Finished));
}

#[test]
fn replay_without_answers_keeps_asking() {
    let stmts = compile("clock();");
    let mut interpreter = Interpreter::new();
    interpreter.interpret(&stmts);
    let (rest, actions) = interpreter.replay(Vec::new(), 20);
    assert!(rest.is_empty());
    assert_eq!(actions.last(), Some(&Action::Ask(Request::Clock)));
    assert!(actions.len() > 2);
    interpreter.answer(number(7.0));
    assert_eq!(interpreter.run(100), Action::Finished);
}

#[test]
fn replay_stops_at_a_runtime_error() {
    let stmts = compile("print(\"a\"); missing; print(\"b\");");
    let mut interpreter = Interpreter::new();
    interpreter.interpret(&stmts);
    let (_, actions) = interpreter.replay(Vec::new(), 100);
    assert_eq!(actions[0], Action::Print(String::from("a")));
    assert!(matches!(actions[1], Action::Fail(_)));
    assert!(actions[2..].iter().all(|action| *action == Action::Finished));
}
