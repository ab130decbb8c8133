use vstd::prelude::*;

verus! {

/// Built in function `clock`: the seconds since the Unix epoch. Used for
/// benchmarking inside a Lox script.
#[derive(Debug, Clone, Copy, PartialEq, Eq, Structural)]
pub struct Clock {}

/// Built in function `print_env`, for printing out the scopes and their
/// variables at a given point in a Lox script. Useful for debugging.
#[derive(Debug, Clone, Copy, PartialEq, Eq, Structural)]
pub struct PrintEnv {}

/// Built in function `print`: prints its argument and a line break.
#[derive(Debug, Clone, Copy, PartialEq, Eq, Structural)]
pub struct Print {}

} // verus!
