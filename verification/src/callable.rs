use crate::builtin_functions::{Clock, Print, PrintEnv};
use crate::function::LoxFunction;
use vstd::prelude::*;
use vstd::string::*;

verus! {

/// What every Lox structure that acts like a function can say of itself.
pub trait LoxCallable {
    /// The number of parameters.
    spec fn spec_arity(&self) -> usize;

    /// The name under which the callable is shown.
    spec fn spec_name(&self) -> Seq<char>;

    /// The number of parameters.
    fn arity(&self) -> (arity: usize)
        ensures
            arity == self.spec_arity(),
    ;

    /// The name under which the callable is shown.
    fn name(&self) -> (name: String)
        ensures
            name@ == self.spec_name(),
    ;
}

impl LoxCallable for Clock {
    open spec fn spec_arity(&self) -> usize {
        0
    }

    open spec fn spec_name(&self) -> Seq<char> {
        "clock"@
    }

    fn arity(&self) -> (arity: usize) {
        0usize
    }

    fn name(&self) -> (name: String) {
        String::from_str("clock")
    }
}

impl LoxCallable for PrintEnv {
    open spec fn spec_arity(&self) -> usize {
        0
    }

    open spec fn spec_name(&self) -> Seq<char> {
        "print_env"@
    }

    fn arity(&self) -> (arity: usize) {
        0usize
    }

    fn name(&self) -> (name: String) {
        String::from_str("print_env")
    }
}

impl LoxCallable for Print {
    open spec fn spec_arity(&self) -> usize {
        1
    }

    open spec fn spec_name(&self) -> Seq<char> {
        "print"@
    }

    fn arity(&self) -> (arity: usize) {
        1usize
    }

    fn name(&self) -> (name: String) {
        String::from_str("print")
    }
}

impl<'a> LoxCallable for LoxFunction<'a> {
    open spec fn spec_arity(&self) -> usize {
        self.declaration.params.len()
    }

    open spec fn spec_name(&self) -> Seq<char> {
        self.declaration.name.lexeme@
    }

    /// Returns the number of parameters the function expects
    fn arity(&self) -> (arity: usize) {
        self.declaration.params.len()
    }

    fn name(&self) -> (name: String) {
        self.declaration.name.lexeme.clone()
    }
}

/// The callables of Lox: the three built-in functions and the functions
/// that a program declares.
#[derive(Debug, Clone, Copy)]
pub enum Callable<'a> {
    Clock(Clock),
    PrintEnv(PrintEnv),
    Print(Print),
    Function(LoxFunction<'a>),
}

impl<'a> LoxCallable for Callable<'a> {
    open spec fn spec_arity(&self) -> usize {
        match self {
            Callable::Clock(clock) => clock.spec_arity(),
            Callable::PrintEnv(print_env) => print_env.spec_arity(),
            Callable::Print(print) => print.spec_arity(),
            Callable::Function(function) => function.spec_arity(),
        }
    }

    open spec fn spec_name(&self) -> Seq<char> {
        match self {
            Callable::Clock(clock) => clock.spec_name(),
            Callable::PrintEnv(print_env) => print_env.spec_name(),
            Callable::Print(print) => print.spec_name(),
            Callable::Function(function) => function.spec_name(),
        }
    }

    fn arity(&self) -> (arity: usize) {
        match self {
            Callable::Clock(clock) => clock.arity(),
            Callable::PrintEnv(print_env) => print_env.arity(),
            Callable::Print(print) => print.arity(),
            Callable::Function(function) => function.arity(),
        }
    }

    fn name(&self) -> (name: String) {
        match self {
            Callable::Clock(clock) => clock.name(),
            Callable::PrintEnv(print_env) => print_env.name(),
            Callable::Print(print) => print.name(),
            Callable::Function(function) => function.name(),
        }
    }
}

} // verus!
