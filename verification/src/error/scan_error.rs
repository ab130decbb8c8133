use crate::util::{decimal, spec_decimal};
use vstd::prelude::*;
use vstd::string::*;

verus! {

/// Where in the source a lexical error was found.
#[derive(Debug, Clone, Copy, PartialEq, Eq, Structural)]
pub struct ScanErrorCtx {
    pub line: usize,
}

impl ScanErrorCtx {
    /// The context of an error on `line`.
    pub fn from(line: usize) -> (ctx: ScanErrorCtx)
        ensures
            ctx.line == line,
    {
        Self { line }
    }
}

/// All errors that scanning can meet.
#[derive(Debug, Clone, Copy, PartialEq, Eq, Structural)]
pub enum ScanError {
    /// A character that starts no token.
    UnexpectedCharacter(ScanErrorCtx),
    /// A string literal whose closing quote is missing.
    UnterminatedString(ScanErrorCtx),
}

/// The start of every diagnostic of the scanner and the parser: the line in
/// brackets and the word `Error`.
pub open spec fn error_heading(line: usize) -> Seq<char> {
    "[line "@ + spec_decimal(line as nat) + "] Error"@
}

/// The start of every diagnostic of the scanner and the parser.
pub fn heading(line: usize) -> (text: String)
    ensures
        text@ == error_heading(line),
{
    let mut text = String::from_str("[line ");
    text.append(decimal(line).as_str());
    text.append("] Error");
    text
}

impl ScanError {
    /// What went wrong, in words.
    pub open spec fn message(&self) -> Seq<char> {
        match self {
            ScanError::UnexpectedCharacter(_) => "Unexpected Character"@,
            ScanError::UnterminatedString(_) => "Unterminated String"@,
        }
    }

    /// The diagnostic as it is shown: `[line N] Error: MESSAGE`.
    pub open spec fn text(&self) -> Seq<char> {
        error_heading(self.spec_line()) + ": "@ + self.message()
    }

    /// The diagnostic as it is shown: `[line N] Error: MESSAGE`.
    pub fn to_string(&self) -> (text: String)
        ensures
            text@ == self.text(),
    {
        let mut text = heading(self.line());
        text.append(": ");
        match self {
            ScanError::UnexpectedCharacter(_) => text.append("Unexpected Character"),
            ScanError::UnterminatedString(_) => text.append("Unterminated String"),
        }
        text
    }

    /// The line the error was found on.
    pub open spec fn spec_line(&self) -> usize {
        match self {
            ScanError::UnexpectedCharacter(ctx) => ctx.line,
            ScanError::UnterminatedString(ctx) => ctx.line,
        }
    }

    /// The line the error was found on.
    #[verifier::when_used_as_spec(spec_line)]
    pub fn line(&self) -> (line: usize)
        ensures
            line == self.spec_line(),
    {
        match self {
            ScanError::UnexpectedCharacter(ctx) => ctx.line,
            ScanError::UnterminatedString(ctx) => ctx.line,
        }
    }
}

} // verus!
