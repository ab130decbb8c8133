use crate::error::error_reporter::{Diagnostic, DiagnosticView, ErrorReporter};
use crate::error::scan_error::{ScanError, ScanErrorCtx};
use crate::token::{token_views, Token, TokenKind, TokenType, TokenView};
use crate::util::{
    is_alpha, is_alpha_numeric, is_digit, keyword_kind, spec_is_alpha, spec_is_alpha_numeric,
    spec_is_digit, spec_keyword_kind, strip_quotes, string_from_chars, to_chars,
};
use vstd::prelude::*;
use vstd::slice::slice_subrange;

verus! {

/// What scanning one stretch of the source yields: where the next stretch
/// starts, the line counter after it, and the token or the error it gave, if
/// any.
pub struct ScanStep {
    pub next: int,
    pub line: usize,
    pub token: Option<TokenView>,
    pub error: Option<ScanError>,
}

/// What scanning a whole source yields.
pub struct Scanned {
    pub tokens: Seq<TokenView>,
    pub errors: Seq<ScanError>,
}

/// The line counter after one more line break. It stops at the largest
/// number the machine can hold.
pub open spec fn bump(line: usize) -> usize {
    if line < usize::MAX {
        (line + 1) as usize
    } else {
        line
    }
}

/// A set of characters that a stretch of the source is made of.
pub enum CharClass {
    /// The decimal digits.
    Digit,
    /// Letters, digits and the underscore.
    AlphaNumeric,
    /// Every character but the given one.
    Not(char),
}

impl CharClass {
    /// True where `c` belongs to the class.
    pub open spec fn has(self, c: char) -> bool {
        match self {
            CharClass::Digit => spec_is_digit(c),
            CharClass::AlphaNumeric => spec_is_alpha_numeric(c),
            CharClass::Not(other) => c != other,
        }
    }
}

/// The first position at or after `from` whose character is not in `keep`, or
/// the end of the source.
pub open spec fn skip_while(src: Seq<char>, from: int, keep: CharClass) -> int
    decreases src.len() - from,
{
    if 0 <= from < src.len() && keep.has(src[from]) {
        skip_while(src, from + 1, keep)
    } else {
        from
    }
}

/// The line counter after the characters of `src` from `from` up to `to`,
/// when it stood at `line` before them.
pub open spec fn line_after(src: Seq<char>, from: int, to: int, line: usize) -> usize
    decreases to - from,
{
    if to <= from {
        line
    } else {
        let before = line_after(src, from, to - 1, line);
        if src[to - 1] == '\n' {
            bump(before)
        } else {
            before
        }
    }
}

/// The kind of the token that the single character `c` makes, for the
/// punctuation that never starts a longer token.
pub open spec fn punctuation(c: char) -> Option<TokenKind> {
    if c == '(' {
        Some(TokenKind::LeftParen)
    } else if c == ')' {
        Some(TokenKind::RightParen)
    } else if c == '{' {
        Some(TokenKind::LeftBrace)
    } else if c == '}' {
        Some(TokenKind::RightBrace)
    } else if c == ',' {
        Some(TokenKind::Comma)
    } else if c == '.' {
        Some(TokenKind::Dot)
    } else if c == '-' {
        Some(TokenKind::Minus)
    } else if c == '+' {
        Some(TokenKind::Plus)
    } else if c == ';' {
        Some(TokenKind::SemiColon)
    } else if c == '*' {
        Some(TokenKind::Star)
    } else {
        None
    }
}

/// The two tokens that a character can open: the one it makes alone and the
/// one it makes when `=` follows.
pub struct OperatorPair {
    pub alone: TokenKind,
    pub with_equal: TokenKind,
}

/// For the characters that make one token alone and another when `=`
/// follows: the kinds of the two.
pub open spec fn operator(c: char) -> Option<OperatorPair> {
    if c == '!' {
        Some(OperatorPair { alone: TokenKind::Bang, with_equal: TokenKind::BangEqual })
    } else if c == '=' {
        Some(OperatorPair { alone: TokenKind::Equal, with_equal: TokenKind::EqualEqual })
    } else if c == '<' {
        Some(OperatorPair { alone: TokenKind::Less, with_equal: TokenKind::LessEqual })
    } else if c == '>' {
        Some(OperatorPair { alone: TokenKind::Greater, with_equal: TokenKind::GreaterEqual })
    } else {
        None
    }
}

/// True where `c` stands at position `at` of `src`.
pub open spec fn has_char(src: Seq<char>, at: int, c: char) -> bool {
    0 <= at < src.len() && src[at] == c
}

/// A token without a literal, whose lexeme is `src` from `start` up to `end`.
pub open spec fn plain_token(src: Seq<char>, start: int, end: int, line: usize, kind: TokenKind)
    -> TokenView {
    TokenView { kind, literal: Seq::empty(), lexeme: src.subrange(start, end), line }
}

/// The step that yields the token `token` and goes on at `next`.
pub open spec fn token_step(next: int, token: TokenView) -> ScanStep {
    ScanStep { next, line: token.line, token: Some(token), error: None }
}

/// Where a number literal that starts at `start` ends: after its digits, and
/// after a dot and further digits where a digit follows the dot.
pub open spec fn number_end(src: Seq<char>, start: int) -> int {
    let whole = skip_while(src, start, CharClass::Digit);
    if has_char(src, whole, '.') && whole + 1 < src.len() && spec_is_digit(src[whole + 1]) {
        skip_while(src, whole + 1, CharClass::Digit)
    } else {
        whole
    }
}

/// Scans the stretch of `src` that starts at `start`, with the line counter
/// at `line`.
///
/// Punctuation and operators give their token; `//` opens a comment that runs
/// to the end of the line and gives nothing; blanks give nothing and a line
/// break bumps the counter; a quote opens a string that runs to the next
/// quote, across line breaks, and is an error where no quote follows; a digit
/// opens a number and a letter or underscore an identifier or keyword; any
/// other character is an error.
pub open spec fn scan_step(src: Seq<char>, start: int, line: usize) -> ScanStep
    recommends
        0 <= start < src.len(),
{
    let c = src[start];
    if punctuation(c) is Some {
        token_step(start + 1, plain_token(src, start, start + 1, line, punctuation(c)->0))
    } else if operator(c) is Some {
        if has_char(src, start + 1, '=') {
            token_step(start + 2, plain_token(src, start, start + 2, line, operator(c)->0.with_equal))
        } else {
            token_step(start + 1, plain_token(src, start, start + 1, line, operator(c)->0.alone))
        }
    } else if c == '/' {
        if has_char(src, start + 1, '/') {
            ScanStep {
                next: skip_while(src, start + 2, CharClass::Not('\n')),
                line,
                token: None,
                error: None,
            }
        } else {
            token_step(start + 1, plain_token(src, start, start + 1, line, TokenKind::Slash))
        }
    } else if c == ' ' || c == '\r' || c == '\t' {
        ScanStep { next: start + 1, line, token: None, error: None }
    } else if c == '\n' {
        ScanStep { next: start + 1, line: bump(line), token: None, error: None }
    } else if c == '"' {
        let close = skip_while(src, start + 1, CharClass::Not('"'));
        let line = line_after(src, start + 1, close, line);
        if close < src.len() {
            token_step(
                close + 1,
                TokenView {
                    kind: TokenKind::String,
                    literal: src.subrange(start + 1, close),
                    lexeme: src.subrange(start, close + 1),
                    line,
                },
            )
        } else {
            ScanStep {
                next: close,
                line,
                token: None,
                error: Some(ScanError::UnterminatedString(ScanErrorCtx { line })),
            }
        }
    } else if spec_is_digit(c) {
        let end = number_end(src, start);
        token_step(
            end,
            TokenView {
                kind: TokenKind::Number,
                literal: src.subrange(start, end),
                lexeme: src.subrange(start, end),
                line,
            },
        )
    } else if spec_is_alpha(c) {
        let end = skip_while(src, start, CharClass::AlphaNumeric);
        let kind = match spec_keyword_kind(src.subrange(start, end)) {
            Some(keyword) => keyword,
            None => TokenKind::Identifier,
        };
        token_step(end, plain_token(src, start, end, line, kind))
    } else {
        ScanStep {
            next: start + 1,
            line,
            token: None,
            error: Some(ScanError::UnexpectedCharacter(ScanErrorCtx { line })),
        }
    }
}

/// The token that ends every token sequence.
pub open spec fn eof_token(line: usize) -> TokenView {
    TokenView { kind: TokenKind::Eof, literal: Seq::empty(), lexeme: Seq::empty(), line }
}

/// A step of the scanner never stands still.
pub proof fn lemma_scan_step_advances(src: Seq<char>, start: int, line: usize)
    requires
        0 <= start < src.len(),
    ensures
        start < scan_step(src, start, line).next <= src.len(),
{
    lemma_skip_while_bounds(src, start + 2, CharClass::Not('\n'));
    lemma_skip_while_bounds(src, start + 1, CharClass::Not('"'));
    lemma_skip_while_bounds(src, start, CharClass::Digit);
    let whole = skip_while(src, start, CharClass::Digit);
    lemma_skip_while_bounds(src, whole + 1, CharClass::Digit);
    lemma_skip_while_bounds(src, start, CharClass::AlphaNumeric);
}

/// `skip_while` goes forward and not past the end of the source.
pub proof fn lemma_skip_while_bounds(src: Seq<char>, from: int, keep: CharClass)
    requires
        0 <= from,
    ensures
        from <= skip_while(src, from, keep),
        from <= src.len() ==> skip_while(src, from, keep) <= src.len(),
        0 <= from < src.len() && keep.has(src[from]) ==> from < skip_while(src, from, keep),
        skip_while(src, from, keep) < src.len() ==> !keep.has(src[skip_while(src, from, keep)]),
    decreases src.len() - from,
{
    if 0 <= from < src.len() && keep.has(src[from]) {
        lemma_skip_while_bounds(src, from + 1, keep);
    }
}

/// The tokens and errors of `src` from position `start` on, with the line
/// counter at `line`: those of each step in turn, and at the end of the
/// source the `Eof` token on the line reached.
pub open spec fn scan_from(src: Seq<char>, start: int, line: usize) -> Scanned
    decreases src.len() - start,
{
    if 0 <= start < src.len() {
        let step = scan_step(src, start, line);
        if start < step.next <= src.len() {
            let rest = scan_from(src, step.next, step.line);
            Scanned {
                tokens: option_seq(step.token) + rest.tokens,
                errors: option_seq(step.error) + rest.errors,
            }
        } else {
            Scanned { tokens: seq![eof_token(line)], errors: Seq::empty() }
        }
    } else {
        Scanned { tokens: seq![eof_token(line)], errors: Seq::empty() }
    }
}

/// The tokens and errors of a whole source.
pub open spec fn scan(src: Seq<char>) -> Scanned {
    scan_from(src, 0, 1)
}

/// The sequence of the one value of `o`, or of none.
pub open spec fn option_seq<T>(o: Option<T>) -> Seq<T> {
    match o {
        Some(value) => seq![value],
        None => Seq::empty(),
    }
}

/// The scan errors as diagnostics, in order.
pub open spec fn scan_diagnostics(errors: Seq<ScanError>) -> Seq<DiagnosticView> {
    Seq::new(errors.len(), |i: int| DiagnosticView::Scan(errors[i]))
}

/// The scanner takes raw source code as a string and produces the tokens of
/// it, and reports the errors it meets on the way.
pub struct Scanner {
    /// The characters of the source code.
    source: Vec<char>,
    /// The tokens scanned so far.
    tokens: Vec<Token>,
    /// Where the token being scanned starts.
    start: usize,
    /// The character to be read next.
    current: usize,
    /// The line of `current`, counted from 1.
    line: usize,
    /// Where errors go.
    error_reporter: ErrorReporter,
}

impl Scanner {
    /// The characters of the source code.
    pub closed spec fn source(&self) -> Seq<char> {
        self.source@
    }

    /// The position of the character to be read next.
    pub closed spec fn position(&self) -> int {
        self.current as int
    }

    /// The line of the character to be read next.
    pub closed spec fn line(&self) -> usize {
        self.line
    }

    /// The tokens scanned so far.
    pub closed spec fn scanned(&self) -> Seq<TokenView> {
        token_views(self.tokens@)
    }

    /// What has been reported so far.
    pub closed spec fn reported(&self) -> Seq<DiagnosticView> {
        self.error_reporter@
    }

    /// Whether the sink had seen an error.
    pub closed spec fn had_error(&self) -> bool {
        self.error_reporter.had_error
    }

    /// Generates a new scanner for the source code: at its first character,
    /// on line 1, with no token scanned yet. Errors will go to
    /// `error_reporter`.
    pub fn new(source: String, error_reporter: ErrorReporter) -> (scanner: Scanner)
        ensures
            scanner.source() == source@,
            scanner.position() == 0,
            scanner.line() == 1,
            scanner.scanned() == Seq::<TokenView>::empty(),
            scanner.reported() == error_reporter@,
            scanner.had_error() == error_reporter.had_error,
    {
        let scanner = Self {
            source: to_chars(source.as_str()),
            tokens: Vec::new(),
            start: 0,
            current: 0,
            line: 1,
            error_reporter,
        };
        assert(scanner.scanned() =~= Seq::<TokenView>::empty());
        scanner
    }

    fn err_ctx(&self) -> (ctx: ScanErrorCtx)
        ensures
            ctx.line == self.line,
    {
        ScanErrorCtx::from(self.line)
    }

    /// Scans the source code and produces the tokens of it, ending with
    /// `Eof`. Scanning goes on past errors; each is handed to the reporter.
    pub fn scan_tokens(self) -> (result: (Vec<Token>, ErrorReporter))
        ensures
            token_views(result.0@) == self.scanned() + scan_from(
                self.source(),
                self.position(),
                self.line(),
            ).tokens,
            result.1@ == self.reported() + scan_diagnostics(
                scan_from(self.source(), self.position(), self.line()).errors,
            ),
            result.1.had_error == (self.had_error() || scan_from(
                self.source(),
                self.position(),
                self.line(),
            ).errors.len() > 0),
    {
        let mut scanner = self;
        let ghost src = scanner.source@;
        let ghost whole = scan_from(src, scanner.current as int, scanner.line);
        let ghost tokens0 = token_views(scanner.tokens@);
        let ghost reported0 = scanner.error_reporter@;
        let ghost had0 = scanner.error_reporter.had_error;
        let ghost mut errors = Seq::<ScanError>::empty();
        assert(reported0 + scan_diagnostics(errors) =~= reported0);
        while !scanner.is_at_end()
            invariant
                scanner.source@ == src,
                tokens0 + whole.tokens == token_views(scanner.tokens@) + scan_from(
                    src,
                    scanner.current as int,
                    scanner.line,
                ).tokens,
                whole.errors == errors + scan_from(src, scanner.current as int, scanner.line).errors,
                scanner.error_reporter@ == reported0 + scan_diagnostics(errors),
                scanner.error_reporter.had_error == (had0 || errors.len() > 0),
            decreases src.len() - scanner.current,
        {
            scanner.start = scanner.current;
            let ghost step = scan_step(src, scanner.current as int, scanner.line);
            let ghost before = token_views(scanner.tokens@);
            let ghost rest = scan_from(src, step.next, step.line);
            proof {
                lemma_scan_step_advances(src, scanner.current as int, scanner.line);
            }
            scanner.scan_token();
            proof {
                assert(before + option_seq(step.token) + rest.tokens =~= before + (option_seq(
                    step.token,
                ) + rest.tokens));
                assert(errors + option_seq(step.error) + rest.errors =~= errors + (option_seq(
                    step.error,
                ) + rest.errors));
                assert(scan_diagnostics(errors + option_seq(step.error)) =~= scan_diagnostics(
                    errors,
                ) + scan_diagnostics(option_seq(step.error)));
                assert(reported0 + scan_diagnostics(errors) + scan_diagnostics(
                    option_seq(step.error),
                ) =~= reported0 + (scan_diagnostics(errors) + scan_diagnostics(
                    option_seq(step.error),
                )));
                errors = errors + option_seq(step.error);
            }
        }

        // Add an automatic EOF token when the end of the source code is reached.
        let ghost before = token_views(scanner.tokens@);
        scanner.tokens.push(Token::new(TokenType::Eof, String::new(), scanner.line));
        proof {
            assert(token_views(scanner.tokens@) =~= before + seq![eof_token(scanner.line)]);
            assert(errors + Seq::<ScanError>::empty() =~= errors);
        }
        (scanner.tokens, scanner.error_reporter)
    }

    /// Scans a whole source: the tokens of `source` and the errors met on
    /// the way, as diagnostics.
    ///
    /// The tokens end with a single `Eof` and hold no other. The lexeme of
    /// each is a stretch of the source, and its line lies between 1 and the
    /// last line of the source.
    pub fn scan(source: String) -> (result: (Vec<Token>, ErrorReporter))
        ensures
            token_views(result.0@) == scan(source@).tokens,
            result.1@ == scan_diagnostics(scan(source@).errors),
            result.1.had_error == (scan(source@).errors.len() > 0),
            result.0@.len() > 0,
            forall|i: int|
                0 <= i < result.0@.len() ==> ((#[trigger] result.0@[i]).token_type.spec_kind()
                    == TokenKind::Eof <==> i == result.0@.len() - 1),
            forall|i: int|
                0 <= i < result.0@.len() ==> is_stretch_of(
                    (#[trigger] result.0@[i]).lexeme@,
                    source@,
                    0,
                ) && 1 <= result.0@[i].line <= line_after(source@, 0, source@.len() as int, 1),
    {
        let scanner = Scanner::new(source, ErrorReporter::new());
        let result = scanner.scan_tokens();
        proof {
            let scanned = scan(source@);
            lemma_scan_ends_with_single_eof(source@, 0, 1);
            lemma_scan_tokens_lie_in_source(source@, 0, 1);
            assert(Seq::<TokenView>::empty() + scanned.tokens =~= scanned.tokens);
            assert(Seq::<DiagnosticView>::empty() + scan_diagnostics(scanned.errors)
                =~= scan_diagnostics(scanned.errors));
            assert forall|i: int| 0 <= i < result.0@.len() implies ((#[trigger] result.0@[
                i
            ]).token_type.spec_kind() == TokenKind::Eof <==> i == result.0@.len() - 1) by {
                assert(token_views(result.0@)[i] == scanned.tokens[i]);
            }
            assert forall|i: int| 0 <= i < result.0@.len() implies is_stretch_of(
                (#[trigger] result.0@[i]).lexeme@,
                source@,
                0,
            ) && 1 <= result.0@[i].line <= line_after(source@, 0, source@.len() as int, 1) by {
                assert(token_views(result.0@)[i] == scanned.tokens[i]);
            }
        }
        result
    }

    /// Handles scanning in any single token.
    fn scan_token(&mut self)
        requires
            old(self).current < old(self).source.len(),
            old(self).start == old(self).current,
        ensures
            final(self).source@ == old(self).source@,
            final(self).current == scan_step(
                old(self).source@,
                old(self).current as int,
                old(self).line,
            ).next,
            final(self).line == scan_step(
                old(self).source@,
                old(self).current as int,
                old(self).line,
            ).line,
            token_views(final(self).tokens@) == token_views(old(self).tokens@) + option_seq(
                scan_step(old(self).source@, old(self).current as int, old(self).line).token,
            ),
            final(self).error_reporter@ == old(self).error_reporter@ + scan_diagnostics(
                option_seq(
                    scan_step(old(self).source@, old(self).current as int, old(self).line).error,
                ),
            ),
            final(self).error_reporter.had_error == (old(self).error_reporter.had_error
                || scan_step(
                old(self).source@,
                old(self).current as int,
                old(self).line,
            ).error is Some),
    {
        let ghost src = self.source@;
        let ghost start = self.current as int;
        let ghost before = token_views(self.tokens@);
        let ghost reported = self.error_reporter@;
        proof {
            assert(before + option_seq(None::<TokenView>) =~= before);
            assert(reported + scan_diagnostics(option_seq(None::<ScanError>)) =~= reported);
        }
        let next_char = self.advance();

        match next_char {
            '(' => self.add_token(TokenType::LeftParen),
            ')' => self.add_token(TokenType::RightParen),
            '{' => self.add_token(TokenType::LeftBrace),
            '}' => self.add_token(TokenType::RightBrace),
            ',' => self.add_token(TokenType::Comma),
            '.' => self.add_token(TokenType::Dot),
            '-' => self.add_token(TokenType::Minus),
            '+' => self.add_token(TokenType::Plus),
            ';' => self.add_token(TokenType::SemiColon),
            '*' => self.add_token(TokenType::Star),
            '!' => {
                if self.advance_on('=') {
                    self.add_token(TokenType::BangEqual);
                } else {
                    self.add_token(TokenType::Bang);
                }
            },
            '=' => {
                if self.advance_on('=') {
                    self.add_token(TokenType::EqualEqual);
                } else {
                    self.add_token(TokenType::Equal);
                }
            },
            '<' => {
                if self.advance_on('=') {
                    self.add_token(TokenType::LessEqual);
                } else {
                    self.add_token(TokenType::Less);
                }
            },
            '>' => {
                if self.advance_on('=') {
                    self.add_token(TokenType::GreaterEqual);
                } else {
                    self.add_token(TokenType::Greater);
                }
            },
            '/' => {
                if self.advance_on('/') {
                    // Read to the end of a comment line
                    while self.current_char() != '\n' && !self.is_at_end()
                        invariant
                            self.source@ == src,
                            self.tokens == old(self).tokens,
                            self.error_reporter == old(self).error_reporter,
                            self.line == old(self).line,
                            start + 2 <= self.current <= src.len(),
                            skip_while(src, start + 2, CharClass::Not('\n')) == skip_while(
                                src,
                                self.current as int,
                                CharClass::Not('\n'),
                            ),
                        decreases src.len() - self.current,
                    {
                        self.advance();
                    }
                } else {
                    self.add_token(TokenType::Slash);
                }
            },
            ' ' | '\r' | '\t' => {
                // Ignore whitespace
            },
            '\n' => {
                if self.line < usize::MAX {
                    self.line += 1;
                }
            },
            '"' => {
                self.string();
            },
            _ => {
                if is_digit(next_char) {
                    self.number();
                } else if is_alpha(next_char) {
                    self.identifier_or_keyword();
                } else {
                    let error = ScanError::UnexpectedCharacter(self.err_ctx());
                    self.error_reporter.error(Diagnostic::Scan(error));
                    proof {
                        assert(scan_diagnostics(option_seq(Some(error))) =~= seq![
                            DiagnosticView::Scan(error),
                        ]);
                    }
                }
            },
        }
    }

    /// Handles scanning in string values.
    fn string(&mut self)
        requires
            old(self).start + 1 == old(self).current,
            old(self).current <= old(self).source.len(),
            old(self).source[old(self).start as int] == '"',
        ensures
            final(self).source@ == old(self).source@,
            final(self).current == scan_step(
                old(self).source@,
                old(self).start as int,
                old(self).line,
            ).next,
            final(self).line == scan_step(
                old(self).source@,
                old(self).start as int,
                old(self).line,
            ).line,
            token_views(final(self).tokens@) == token_views(old(self).tokens@) + option_seq(
                scan_step(old(self).source@, old(self).start as int, old(self).line).token,
            ),
            final(self).error_reporter@ == old(self).error_reporter@ + scan_diagnostics(
                option_seq(
                    scan_step(old(self).source@, old(self).start as int, old(self).line).error,
                ),
            ),
            final(self).error_reporter.had_error == (old(self).error_reporter.had_error
                || scan_step(
                old(self).source@,
                old(self).start as int,
                old(self).line,
            ).error is Some),
    {
        let ghost src = self.source@;
        let ghost start = self.start as int;
        // Scan to the ending quotation mark
        while self.current_char() != '"' && !self.is_at_end()
            invariant
                self.source@ == src,
                self.start == start,
                self.tokens == old(self).tokens,
                self.error_reporter == old(self).error_reporter,
                start + 1 <= self.current <= src.len(),
                skip_while(src, start + 1, CharClass::Not('"')) == skip_while(src, self.current as int, CharClass::Not('"')),
                self.line == line_after(src, start + 1, self.current as int, old(self).line),
            decreases src.len() - self.current,
        {
            assert(skip_while(src, self.current as int, CharClass::Not('"')) == skip_while(
                src,
                self.current + 1,
                CharClass::Not('"'),
            ));
            // Support multi line strings
            if self.current_char() == '\n' {
                if self.line < usize::MAX {
                    self.line += 1;
                }
            }
            self.advance();
        }

        // If we reach the ending quotation before the end of the file, consume
        // it then add the String token. Otherwise, report the error.
        if self.is_at_end() {
            let error = ScanError::UnterminatedString(self.err_ctx());
            self.error_reporter.error(Diagnostic::Scan(error));
            proof {
                assert(scan_diagnostics(option_seq(Some(error))) =~= seq![
                    DiagnosticView::Scan(error),
                ]);
                assert(token_views(self.tokens@) + option_seq(None::<TokenView>) =~= token_views(
                    self.tokens@,
                ));
            }
        } else {
            self.advance();  // Closing "
            let lexeme = self.get_current_lexeme();
            let literal = strip_quotes(lexeme);
            proof {
                assert(src.subrange(start, self.current as int).subrange(
                    1,
                    self.current - start - 1,
                ) =~= src.subrange(start + 1, self.current - 1));
                assert(self.error_reporter@ + scan_diagnostics(option_seq(None::<ScanError>))
                    =~= self.error_reporter@);
            }
            self.add_token(TokenType::String(literal));
        }
    }

    /// Handles scanning number values.
    fn number(&mut self)
        requires
            old(self).start + 1 == old(self).current,
            old(self).current <= old(self).source.len(),
            spec_is_digit(old(self).source[old(self).start as int]),
        ensures
            final(self).source@ == old(self).source@,
            final(self).current == number_end(old(self).source@, old(self).start as int),
            final(self).line == old(self).line,
            token_views(final(self).tokens@) == token_views(old(self).tokens@).push(
                TokenView {
                    kind: TokenKind::Number,
                    literal: old(self).source@.subrange(
                        old(self).start as int,
                        final(self).current as int,
                    ),
                    lexeme: old(self).source@.subrange(
                        old(self).start as int,
                        final(self).current as int,
                    ),
                    line: old(self).line,
                },
            ),
            final(self).error_reporter == old(self).error_reporter,
    {
        let ghost src = self.source@;
        let ghost start = self.start as int;
        // Scan in all digits
        self.digits(Ghost(start));
        let ghost whole = self.current as int;

        // If there is a DOT character followed by more digits, scan in the DOT
        // and the rest of the digits
        if self.current_char() == '.' && is_digit(self.next_char()) {
            self.advance();
            self.digits(Ghost(whole + 1));
        }
        let numeral = self.get_current_lexeme();
        let ghost before = token_views(self.tokens@);
        self.tokens.push(Token::new(TokenType::Number(numeral), self.get_current_lexeme(), self.line));
        proof {
            assert(token_views(self.tokens@) =~= before.push(self.tokens@.last()@));
        }
    }

    /// Advances over the digits at the current position. `from` is a position
    /// from which only digits stand up to the current one.
    fn digits(&mut self, Ghost(from): Ghost<int>)
        requires
            0 <= from <= old(self).current <= old(self).source.len(),
            skip_while(old(self).source@, from, CharClass::Digit) == skip_while(
                old(self).source@,
                old(self).current as int,
                CharClass::Digit,
            ),
        ensures
            final(self).current == skip_while(old(self).source@, from, CharClass::Digit),
            old(self).current <= final(self).current <= final(self).source.len(),
            final(self).source@ == old(self).source@,
            final(self).start == old(self).start,
            final(self).line == old(self).line,
            final(self).tokens == old(self).tokens,
            final(self).error_reporter == old(self).error_reporter,
    {
        let ghost src = self.source@;
        while is_digit(self.current_char())
            invariant
                self.source@ == src,
                self.start == old(self).start,
                self.line == old(self).line,
                self.tokens == old(self).tokens,
                self.error_reporter == old(self).error_reporter,
                old(self).current <= self.current <= src.len(),
                skip_while(src, from, CharClass::Digit) == skip_while(src, self.current as int, CharClass::Digit),
            decreases src.len() - self.current,
        {
            assert(skip_while(src, self.current as int, CharClass::Digit) == skip_while(
                src,
                self.current + 1,
                CharClass::Digit,
            ));
            self.advance();
        }
    }

    /// Handles scanning in keywords and identifiers.
    fn identifier_or_keyword(&mut self)
        requires
            old(self).start + 1 == old(self).current,
            old(self).current <= old(self).source.len(),
            spec_is_alpha(old(self).source[old(self).start as int]),
        ensures
            final(self).source@ == old(self).source@,
            final(self).current == skip_while(
                old(self).source@,
                old(self).start as int,
                CharClass::AlphaNumeric,
            ),
            final(self).line == old(self).line,
            token_views(final(self).tokens@) == token_views(old(self).tokens@).push(
                plain_token(
                    old(self).source@,
                    old(self).start as int,
                    final(self).current as int,
                    old(self).line,
                    match spec_keyword_kind(
                        old(self).source@.subrange(
                            old(self).start as int,
                            final(self).current as int,
                        ),
                    ) {
                        Some(keyword) => keyword,
                        None => TokenKind::Identifier,
                    },
                ),
            ),
            final(self).error_reporter == old(self).error_reporter,
    {
        let ghost src = self.source@;
        // Encompass the rest of the alphanumeric characters of the identifier.
        while is_alpha_numeric(self.current_char())
            invariant
                self.source@ == src,
                self.start == old(self).start,
                self.line == old(self).line,
                self.tokens == old(self).tokens,
                self.error_reporter == old(self).error_reporter,
                self.start < self.current <= src.len(),
                skip_while(src, self.start as int, CharClass::AlphaNumeric) == skip_while(
                    src,
                    self.current as int,
                    CharClass::AlphaNumeric,
                ),
            decreases src.len() - self.current,
        {
            assert(skip_while(src, self.current as int, CharClass::AlphaNumeric) == skip_while(
                src,
                self.current + 1,
                CharClass::AlphaNumeric,
            ));
            self.advance();
        }

        // Check to see if the current lexeme is one of Lox's keywords. If it
        // is, add the appropriate keyword token, otherwise add it as an
        // identifier.
        let lexeme = self.get_current_lexeme();
        match keyword_kind(&lexeme) {
            Some(keyword) => {
                self.add_token(keyword);
            },
            None => {
                self.add_token(TokenType::Identifier);
            },
        }
    }

    /// Lets us know if we've made it to the end of the source code.
    fn is_at_end(&self) -> (at_end: bool)
        ensures
            at_end == (self.current >= self.source.len()),
    {
        self.current >= self.source.len()
    }

    /// Advance current to encompass another character and return the previous
    /// character for evaluation.
    fn advance(&mut self) -> (c: char)
        requires
            old(self).current < old(self).source.len(),
        ensures
            c == old(self).source[old(self).current as int],
            final(self).current == old(self).current + 1,
            final(self).source == old(self).source,
            final(self).start == old(self).start,
            final(self).line == old(self).line,
            final(self).tokens == old(self).tokens,
            final(self).error_reporter == old(self).error_reporter,
    {
        self.current += 1;
        self.source[self.current - 1]
    }

    /// Only advances current if the next char is the one we're looking for.
    /// Returns whether the character was found.
    fn advance_on(&mut self, expected: char) -> (found: bool)
        ensures
            found == has_char(old(self).source@, old(self).current as int, expected),
            final(self).current == if found {
                old(self).current + 1
            } else {
                old(self).current as int
            },
            final(self).source == old(self).source,
            final(self).start == old(self).start,
            final(self).line == old(self).line,
            final(self).tokens == old(self).tokens,
            final(self).error_reporter == old(self).error_reporter,
    {
        if self.is_at_end() || self.source[self.current] != expected {
            false
        } else {
            self.advance();
            true
        }
    }

    /// Returns the current character in source, or NUL at its end.
    fn current_char(&self) -> (c: char)
        ensures
            c == if self.current < self.source.len() {
                self.source[self.current as int]
            } else {
                '\0'
            },
    {
        self.peek_n_characters(0)
    }

    /// Returns the next character in source, or NUL past its end.
    fn next_char(&self) -> (c: char)
        ensures
            c == if self.current < self.source.len() && self.current + 1 < self.source.len() {
                self.source[self.current + 1]
            } else {
                '\0'
            },
    {
        self.peek_n_characters(1)
    }

    /// Method for peeking at what the next characters are.
    fn peek_n_characters(&self, n: usize) -> (c: char)
        ensures
            c == if self.current < self.source.len() && self.current + n < self.source.len() {
                self.source[self.current + n]
            } else {
                '\0'
            },
    {
        if self.current >= self.source.len() || n >= self.source.len() - self.current {
            '\0'
        } else {
            self.source[self.current + n]
        }
    }

    /// Returns the stretch of the source code in view of the scanner.
    fn get_current_lexeme(&self) -> (lexeme: String)
        requires
            self.start <= self.current <= self.source.len(),
        ensures
            lexeme@ == self.source@.subrange(self.start as int, self.current as int),
    {
        string_from_chars(slice_subrange(self.source.as_slice(), self.start, self.current))
    }

    /// Adds any token to the tokens list.
    fn add_token(&mut self, token_type: TokenType)
        requires
            old(self).start <= old(self).current <= old(self).source.len(),
        ensures
            final(self).source == old(self).source,
            final(self).start == old(self).start,
            final(self).current == old(self).current,
            final(self).line == old(self).line,
            final(self).error_reporter == old(self).error_reporter,
            token_views(final(self).tokens@) == token_views(old(self).tokens@).push(
                TokenView {
                    kind: token_type.spec_kind(),
                    literal: token_type.spec_literal(),
                    lexeme: old(self).source@.subrange(
                        old(self).start as int,
                        old(self).current as int,
                    ),
                    line: old(self).line,
                },
            ),
    {
        let token = Token::new(token_type, self.get_current_lexeme(), self.line);
        self.tokens.push(token);
        assert(token_views(self.tokens@) =~= token_views(old(self).tokens@).push(token@));
    }
}

/// True where `lexeme` is a stretch of `src` that starts at or after `from`.
pub open spec fn is_stretch_of(lexeme: Seq<char>, src: Seq<char>, from: int) -> bool {
    exists|a: int, b: int| from <= a <= b <= src.len() && lexeme == #[trigger] src.subrange(a, b)
}

/// A keyword is never the end-of-input token.
proof fn lemma_lookup_is_keyword(table: Seq<(Seq<char>, TokenKind)>, word: Seq<char>, from: int)
    requires
        forall|i: int| 0 <= i < table.len() ==> (#[trigger] table[i]).1 != TokenKind::Eof,
    ensures
        crate::util::lookup(table, word, from) != Some(TokenKind::Eof),
    decreases table.len() - from,
{
    if 0 <= from < table.len() && table[from].0 != word {
        lemma_lookup_is_keyword(table, word, from + 1);
    }
}

/// The line counter never goes back, and reading further never lowers it.
pub proof fn lemma_line_after_grows(src: Seq<char>, from: int, mid: int, to: int, line: usize)
    requires
        from <= mid <= to,
    ensures
        line <= line_after(src, from, mid, line) <= line_after(src, from, to, line),
    decreases to - from,
{
    if from < mid {
        lemma_line_after_grows(src, from, mid - 1, mid - 1, line);
    }
    if mid < to {
        lemma_line_after_grows(src, from, mid, to - 1, line);
    }
}

/// Reading a stretch in two parts counts the same lines as reading it whole.
pub proof fn lemma_line_after_splits(src: Seq<char>, from: int, mid: int, to: int, line: usize)
    requires
        from <= mid <= to,
    ensures
        line_after(src, from, to, line) == line_after(
            src,
            mid,
            to,
            line_after(src, from, mid, line),
        ),
    decreases to - mid,
{
    if mid < to {
        lemma_line_after_splits(src, from, mid, to - 1, line);
    }
}

/// A stretch that `skip_while` passed over holds no line break, when the
/// class has none.
proof fn lemma_skipped_has_no_break(src: Seq<char>, from: int, keep: CharClass, line: usize)
    requires
        0 <= from <= src.len(),
        !keep.has('\n'),
    ensures
        line_after(src, from, skip_while(src, from, keep), line) == line,
    decreases src.len() - from,
{
    if from < src.len() && keep.has(src[from]) {
        let end = skip_while(src, from + 1, keep);
        lemma_skip_while_bounds(src, from + 1, keep);
        lemma_skipped_has_no_break(src, from + 1, keep, line);
        lemma_line_after_splits(src, from, from + 1, end, line);
        assert(line_after(src, from, from, line) == line);
        assert(line_after(src, from, from + 1, line) == line);
    }
}

/// What one step of the scanner yields: it goes forward, its line counter is
/// the one that reading the stretch gives, and its token, if any, is no
/// `Eof` and has a stretch of the source as its lexeme.
pub proof fn lemma_scan_step(src: Seq<char>, start: int, line: usize)
    requires
        0 <= start < src.len(),
    ensures
        start < scan_step(src, start, line).next <= src.len(),
        scan_step(src, start, line).line == line_after(
            src,
            start,
            scan_step(src, start, line).next,
            line,
        ),
        scan_step(src, start, line).token matches Some(token) ==> {
            &&& token.kind != TokenKind::Eof
            &&& token.line == scan_step(src, start, line).line
            &&& is_stretch_of(token.lexeme, src, start)
        },
{
    let step = scan_step(src, start, line);
    let c = src[start];
    lemma_scan_step_advances(src, start, line);
    assert(line_after(src, start, start, line) == line);
    assert(line_after(src, start + 1, start + 1, line) == line);
    assert(line_after(src, start, start + 1, line) == if c == '\n' {
        bump(line)
    } else {
        line
    });
    if punctuation(c) is Some {
        assert(step.token->0.lexeme == src.subrange(start, start + 1));
    } else if operator(c) is Some {
        if has_char(src, start + 1, '=') {
            assert(line_after(src, start, start + 2, line) == line);
            assert(step.token->0.lexeme == src.subrange(start, start + 2));
        } else {
            assert(step.token->0.lexeme == src.subrange(start, start + 1));
        }
    } else if c == '/' {
        if has_char(src, start + 1, '/') {
            assert(line_after(src, start, start + 2, line) == line);
            lemma_skip_while_bounds(src, start + 2, CharClass::Not('\n'));
            lemma_skipped_has_no_break(src, start + 2, CharClass::Not('\n'), line);
            lemma_line_after_splits(src, start, start + 2, step.next, line);
        } else {
            assert(step.token->0.lexeme == src.subrange(start, start + 1));
        }
    } else if c == ' ' || c == '\r' || c == '\t' {
    } else if c == '\n' {
    } else if c == '"' {
        let close = skip_while(src, start + 1, CharClass::Not('"'));
        lemma_skip_while_bounds(src, start + 1, CharClass::Not('"'));
        lemma_line_after_splits(src, start, start + 1, close, line);
        if close < src.len() {
            assert(src[close] == '"');
            assert(step.token->0.lexeme == src.subrange(start, close + 1));
        }
    } else if spec_is_digit(c) {
        let whole = skip_while(src, start, CharClass::Digit);
        lemma_skip_while_bounds(src, start, CharClass::Digit);
        lemma_skipped_has_no_break(src, start, CharClass::Digit, line);
        if step.next != whole {
            lemma_skip_while_bounds(src, whole + 1, CharClass::Digit);
            lemma_skipped_has_no_break(src, whole + 1, CharClass::Digit, line);
            assert(line_after(src, whole, whole, line) == line);
            assert(line_after(src, whole, whole + 1, line) == line);
            lemma_line_after_splits(src, whole, whole + 1, step.next, line);
            lemma_line_after_splits(src, start, whole, step.next, line);
        }
        assert(step.token->0.lexeme == src.subrange(start, step.next));
    } else if spec_is_alpha(c) {
        lemma_skip_while_bounds(src, start, CharClass::AlphaNumeric);
        lemma_skipped_has_no_break(src, start, CharClass::AlphaNumeric, line);
        lemma_lookup_is_keyword(crate::util::spec_keywords(), src.subrange(start, step.next), 0);
        assert(step.token->0.lexeme == src.subrange(start, step.next));
    } else {
    }
}

/// The scanner's output ends with a single `Eof` and is otherwise free of
/// `Eof` tokens.
pub proof fn lemma_scan_ends_with_single_eof(src: Seq<char>, start: int, line: usize)
    ensures
        scan_from(src, start, line).tokens.len() > 0,
        scan_from(src, start, line).tokens.last().kind == TokenKind::Eof,
        forall|i: int|
            0 <= i < scan_from(src, start, line).tokens.len() - 1 ==> (#[trigger] scan_from(
                src,
                start,
                line,
            ).tokens[i]).kind != TokenKind::Eof,
    decreases src.len() - start,
{
    if 0 <= start < src.len() {
        let step = scan_step(src, start, line);
        lemma_scan_step(src, start, line);
        lemma_scan_ends_with_single_eof(src, step.next, step.line);
    }
}

/// Every token's lexeme is a stretch of the source, and its line lies
/// between the line the scanner started on and the line it ends on. For a
/// whole source these are line 1 and the last line.
pub proof fn lemma_scan_tokens_lie_in_source(src: Seq<char>, start: int, line: usize)
    requires
        0 <= start <= src.len(),
    ensures
        forall|i: int|
            0 <= i < scan_from(src, start, line).tokens.len() ==> {
                &&& is_stretch_of(
                    (#[trigger] scan_from(src, start, line).tokens[i]).lexeme,
                    src,
                    start,
                )
                &&& line <= scan_from(src, start, line).tokens[i].line <= line_after(
                    src,
                    start,
                    src.len() as int,
                    line,
                )
            },
    decreases src.len() - start,
{
    let tokens = scan_from(src, start, line).tokens;
    if 0 <= start < src.len() {
        let step = scan_step(src, start, line);
        lemma_scan_step(src, start, line);
        lemma_scan_tokens_lie_in_source(src, step.next, step.line);
        lemma_line_after_splits(src, start, step.next, src.len() as int, line);
        lemma_line_after_grows(src, start, step.next, src.len() as int, line);
        let rest = scan_from(src, step.next, step.line).tokens;
        assert forall|i: int| 0 <= i < tokens.len() implies {
            &&& is_stretch_of((#[trigger] tokens[i]).lexeme, src, start)
            &&& line <= tokens[i].line <= line_after(src, start, src.len() as int, line)
        } by {
            if step.token is Some && i == 0 {
            } else {
                let j = i - option_seq(step.token).len();
                assert(tokens[i] == rest[j]);
                assert(is_stretch_of(rest[j].lexeme, src, step.next));
                let (a, b) = choose|a: int, b: int|
                    step.next <= a <= b <= src.len() && rest[j].lexeme == #[trigger] src.subrange(
                        a,
                        b,
                    );
                assert(start <= a <= b <= src.len() && tokens[i].lexeme == src.subrange(a, b));
            }
        }
    } else {
        assert(tokens[0].lexeme =~= src.subrange(start, start));
        assert(line_after(src, start, src.len() as int, line) == line);
    }
}

} // verus!
