use crate::error::error_reporter::ErrorReporter;
use crate::grammar::{stmt_views, Stmt};
use crate::interpreter::Interpreter;

use crate::parsed::{lemma_items, lemma_parsed_is_printable};
use crate::parser::Parser;
use crate::printing::printable_program;
use crate::scanner::{lemma_scan_ends_with_single_eof, scan, scan_diagnostics, Scanner};
use crate::syntax::{parse_program, Cursor, Program};
use vstd::prelude::*;

verus! {

/// How the interpreter was started.
#[derive(Debug, Clone, Copy, PartialEq, Eq, Structural)]
pub enum Mode {
    /// At the prompt: every line is a program of its own, and no error ends
    /// the session.
    Repl,
    /// On a file: the file is the program, and an error ends the process.
    Script,
}

/// The exit code of a process that was started with the wrong arguments.
pub const EXIT_USAGE: u8 = 64;

/// The exit code of a script with a lexical or syntax error.
pub const EXIT_STATIC_ERROR: u8 = 65;

/// The exit code of a script that met a runtime error.
pub const EXIT_RUNTIME_ERROR: u8 = 70;

/// What the source `src` spells: its tokens parsed, with the errors of the
/// scanner reported before those of the parser.
pub open spec fn compiled(src: Seq<char>) -> Program {
    parse_program(
        scan(src).tokens,
        Cursor {
            pos: 0,
            reports: scan_diagnostics(scan(src).errors),
            had_error: scan(src).errors.len() > 0,
        },
    )
}

/// Effectively, the "Main" class. Handles the most top level operations on
/// the Lox code.
#[derive(Debug)]
pub struct Lox<'a> {
    pub interpreter: Interpreter<'a>,
    pub mode: Option<Mode>,
}

impl<'a> Lox<'a> {
    /// A new interpreter that has not been told yet how it was started.
    pub fn new() -> (lox: Self)
        ensures
            lox.mode is None,
            lox.interpreter@ == Interpreter::<'a>::new_view(),
    {
        Self { interpreter: Interpreter::new(), mode: None }
    }

    /// The mode that the command line asks for, given the number of its
    /// words, the name of the program included: the prompt when the name
    /// stands alone, a script when one word follows it. Anything else is a
    /// misuse.
    pub fn mode_of(arguments: usize) -> (mode: Option<Mode>)
        ensures
            mode == if arguments == 1 {
                Some(Mode::Repl)
            } else if arguments == 2 {
                Some(Mode::Script)
            } else {
                None::<Mode>
            },
    {
        if arguments == 1 {
            // Running the executable with no arguments starts the repl
            Some(Mode::Repl)
        } else if arguments == 2 {
            // Running the executable with a single argument runs the
            // provided filename as lox code
            Some(Mode::Script)
        } else {
            None
        }
    }

    /// Takes the code through the static steps of its lifecycle: scanning
    /// and parsing. The reporter holds the errors of both. Where there is
    /// none, the program is printable: the parser reads it back from every
    /// printed form of it.
    pub fn compile(src: String) -> (result: (Vec<Stmt>, ErrorReporter))
        ensures
            stmt_views(result.0@) == compiled(src@).statements,
            result.1@ == compiled(src@).cursor.reports,
            result.1.had_error == compiled(src@).cursor.had_error,
            result.1@.len() == 0 ==> printable_program(stmt_views(result.0@)),
    {
        // Scan the source code into a list of Tokens
        let (tokens, error_reporter) = Scanner::scan(src);
        proof {
            lemma_scan_ends_with_single_eof(src@, 0, 1);
            let start = Cursor {
                pos: 0,
                reports: scan_diagnostics(scan(src@).errors),
                had_error: scan(src@).errors.len() > 0,
            };
            lemma_items(scan(src@).tokens, start, Seq::empty());
            if parse_program(scan(src@).tokens, start).cursor.reports.len() == 0 {
                lemma_parsed_is_printable(scan(src@).tokens, start);
            }
        }

        // Parse the Tokens into a syntax tree
        let parser = Parser::new(tokens, error_reporter);
        parser.parse()
    }

    /// Decides what becomes of a compiled program. One with static errors is
    /// not executed: a script ends with the exit code of a static error, the
    /// prompt goes on to its next line. One without is loaded into the
    /// interpreter, for the caller to run.
    pub fn run(&mut self, stmts: &'a Vec<Stmt>, static_errors: &ErrorReporter) -> (exit: Option<
        u8,
    >)
        ensures
            final(self).mode == old(self).mode,
            static_errors.had_error ==> final(self).interpreter@ == old(self).interpreter@
                && exit == if old(self).mode == Some(Mode::Script) {
                Some(EXIT_STATIC_ERROR)
            } else {
                None::<u8>
            },
            !static_errors.had_error ==> final(self).interpreter@ == old(self).interpreter@.load(
                stmts,
            ) && exit is None,
    {
        if static_errors.had_error {
            match self.mode {
                Some(Mode::Script) => Some(EXIT_STATIC_ERROR),
                _ => None,
            }
        } else {
            self.interpreter.interpret(stmts);
            None
        }
    }

    /// The exit code of the process once the program has ended or was
    /// halted: that of a runtime error where a script met one; none at the
    /// prompt, which goes on.
    pub fn exit_code(&self) -> (exit: Option<u8>)
        ensures
            exit == if self.mode == Some(Mode::Script) {
                if self.interpreter.error_reporter.had_error {
                    Some(EXIT_RUNTIME_ERROR)
                } else {
                    Some(0u8)
                }
            } else {
                None::<u8>
            },
    {
        match self.mode {
            Some(Mode::Script) => if self.interpreter.error_reporter.had_error {
                Some(EXIT_RUNTIME_ERROR)
            } else {
                Some(0)
            },
            _ => None,
        }
    }
}

} // verus!
