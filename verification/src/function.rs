use crate::grammar::FunctionDeclarationStmt;
use vstd::prelude::*;

verus! {

/// Represents a Lox function object: a declaration together with the scope
/// that was current where it was declared. The scope is shared, not copied:
/// what the function's body assigns there stays there.
#[derive(Debug, Clone, Copy)]
pub struct LoxFunction<'a> {
    /// The declaration: the name, the parameters and the body.
    pub declaration: &'a FunctionDeclarationStmt,
    /// The scope that the function closes over, by its number in the
    /// environment.
    pub closure: usize,
}

impl<'a> LoxFunction<'a> {
    /// Construct a function object from the function declaration statement
    /// parsed by the parser and the scope it is declared in.
    pub fn from(declaration: &'a FunctionDeclarationStmt, closure: usize) -> (function: Self)
        ensures
            function.declaration == declaration,
            function.closure == closure,
    {
        Self { declaration, closure }
    }
}

} // verus!
