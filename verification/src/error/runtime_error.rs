use crate::token::{Token, TokenView};
use crate::util::{decimal, spec_decimal};
use vstd::prelude::*;
use vstd::string::*;

verus! {

/// The token at which a runtime error was raised.
#[derive(Debug, PartialEq)]
pub struct RuntimeErrorCtx {
    pub token: Token,
}

impl Clone for RuntimeErrorCtx {
    fn clone(&self) -> (copy: Self)
        ensures
            copy == *self,
    {
        RuntimeErrorCtx { token: self.token.clone() }
    }
}

/// An error raised while a program runs.
#[derive(Debug, PartialEq)]
pub enum RuntimeError {
    /// The offending token, for its line, and a message for the reader.
    WithMsg(RuntimeErrorCtx, String),
}

/// A runtime error with the views of its token and message.
pub struct RuntimeErrorView {
    pub token: TokenView,
    pub message: Seq<char>,
}

impl View for RuntimeError {
    type V = RuntimeErrorView;

    open spec fn view(&self) -> RuntimeErrorView {
        match self {
            RuntimeError::WithMsg(ctx, message) => RuntimeErrorView {
                token: ctx.token@,
                message: message@,
            },
        }
    }
}

impl RuntimeErrorView {
    /// The diagnostic as it is shown: the message, and on a line of its own
    /// the line of the token in brackets.
    pub open spec fn text(self) -> Seq<char> {
        self.message + "\n[line "@ + spec_decimal(self.token.line as nat) + "]"@
    }
}

impl RuntimeError {
    /// The diagnostic as it is shown: the message, and on a line of its own
    /// the line of the token in brackets.
    pub fn to_string(&self) -> (text: String)
        ensures
            text@ == self@.text(),
    {
        match self {
            RuntimeError::WithMsg(ctx, message) => {
                let mut text = message.clone();
                text.append("\n[line ");
                text.append(decimal(ctx.token.line).as_str());
                text.append("]");
                text
            },
        }
    }

    /// A runtime error at `token` with the message `msg`.
    pub fn new(token: Token, msg: String) -> (error: RuntimeError)
        ensures
            error == RuntimeError::WithMsg(RuntimeErrorCtx { token }, msg),
    {
        RuntimeError::WithMsg(RuntimeErrorCtx { token }, msg)
    }
}

impl Clone for RuntimeError {
    fn clone(&self) -> (copy: Self)
        ensures
            copy == *self,
    {
        match self {
            RuntimeError::WithMsg(ctx, message) => RuntimeError::WithMsg(
                ctx.clone(),
                message.clone(),
            ),
        }
    }
}

} // verus!
