use crate::error::parse_error::{ParseError, ParseErrorView};
use crate::error::runtime_error::{RuntimeError, RuntimeErrorView};
use crate::error::scan_error::ScanError;
use vstd::prelude::*;

verus! {

/// One reported error, of whichever stage.
#[derive(Debug, PartialEq)]
pub enum Diagnostic {
    Scan(ScanError),
    Parse(ParseError),
    Runtime(RuntimeError),
}

/// A reported error with the views of its tokens and texts.
pub enum DiagnosticView {
    Scan(ScanError),
    Parse(ParseErrorView),
    Runtime(RuntimeErrorView),
}

impl View for Diagnostic {
    type V = DiagnosticView;

    open spec fn view(&self) -> DiagnosticView {
        match self {
            Diagnostic::Scan(error) => DiagnosticView::Scan(*error),
            Diagnostic::Parse(error) => DiagnosticView::Parse(error@),
            Diagnostic::Runtime(error) => DiagnosticView::Runtime(error@),
        }
    }
}

impl DiagnosticView {
    /// The diagnostic as it is shown.
    pub open spec fn text(self) -> Seq<char> {
        match self {
            DiagnosticView::Scan(error) => error.text(),
            DiagnosticView::Parse(error) => error.text(),
            DiagnosticView::Runtime(error) => error.text(),
        }
    }
}

impl Diagnostic {
    /// The diagnostic as it is shown.
    pub fn to_string(&self) -> (text: String)
        ensures
            text@ == self@.text(),
    {
        match self {
            Diagnostic::Scan(error) => error.to_string(),
            Diagnostic::Parse(error) => error.to_string(),
            Diagnostic::Runtime(error) => error.to_string(),
        }
    }
}

/// The views of a sequence of diagnostics, in order.
pub open spec fn diagnostic_views(diagnostics: Seq<Diagnostic>) -> Seq<DiagnosticView> {
    Seq::new(diagnostics.len(), |i: int| diagnostics[i]@)
}

/// The error reporter is a simple sink: it keeps every error it is handed, in
/// order, and records that an error occurred. Printing them is the caller's
/// business.
#[derive(Debug)]
pub struct ErrorReporter {
    pub had_error: bool,
    pub diagnostics: Vec<Diagnostic>,
}

impl View for ErrorReporter {
    type V = Seq<DiagnosticView>;

    open spec fn view(&self) -> Seq<DiagnosticView> {
        diagnostic_views(self.diagnostics@)
    }
}

impl ErrorReporter {
    /// Basic constructor. Creates a new error reporter that has seen no error.
    pub fn new() -> (reporter: ErrorReporter)
        ensures
            !reporter.had_error,
            reporter@ == Seq::<DiagnosticView>::empty(),
    {
        let reporter = Self { had_error: false, diagnostics: Vec::new() };
        assert(reporter@ =~= Seq::<DiagnosticView>::empty());
        reporter
    }

    /// Reports a runtime error.
    pub fn runtime_error(&mut self, error: RuntimeError)
        ensures
            final(self).had_error,
            final(self)@ == old(self)@.push(DiagnosticView::Runtime(error@)),
    {
        self.error(Diagnostic::Runtime(error));
    }

    /// Reports an error: it is appended to the diagnostics and `had_error` is
    /// set.
    pub fn error(&mut self, error: Diagnostic)
        ensures
            final(self).had_error,
            final(self)@ == old(self)@.push(error@),
            final(self).diagnostics@ == old(self).diagnostics@.push(error),
    {
        self.diagnostics.push(error);
        self.had_error = true;
        assert(self@ =~= old(self)@.push(error@));
    }
}

} // verus!
