use vstd::prelude::*;
use vstd::string::*;

verus! {

/// The lexical category of a token, without any literal payload.
#[derive(Debug, Clone, Copy, PartialEq, Eq, Structural, Hash)]
pub enum TokenKind {
    // Single character tokens
    LeftParen,
    RightParen,
    LeftBrace,
    RightBrace,
    Comma,
    Dot,
    Minus,
    Plus,
    SemiColon,
    Slash,
    Star,
    // One or two character tokens
    Bang,
    BangEqual,
    Equal,
    EqualEqual,
    GreaterEqual,
    Greater,
    Less,
    LessEqual,
    // Literals
    Identifier,
    String,
    Number,
    // Keywords
    And,
    Class,
    Else,
    False,
    Fun,
    For,
    If,
    Nil,
    Or,
    Print,
    Return,
    Super,
    This,
    True,
    Var,
    While,
    Eof,
}

/// Represents every valid Lox token.
///
/// A string literal carries its text without the surrounding quotes. A number
/// literal carries its decimal numeral (`12` or `12.5`); turning the numeral
/// into a double is left to the embedding program.
#[derive(Debug, PartialEq)]
pub enum TokenType {
    // Single character tokens
    LeftParen,
    RightParen,
    LeftBrace,
    RightBrace,
    Comma,
    Dot,
    Minus,
    Plus,
    SemiColon,
    Slash,
    Star,
    // One or two character tokens
    Bang,
    BangEqual,
    Equal,
    EqualEqual,
    GreaterEqual,
    Greater,
    Less,
    LessEqual,
    // Literals
    Identifier,
    String(String),
    Number(String),
    // Keywords
    And,
    Class,
    Else,
    False,
    Fun,
    For,
    If,
    Nil,
    Or,
    Print,
    Return,
    Super,
    This,
    True,
    Var,
    While,
    Eof,
}

impl TokenKind {
    /// How the kind is shown: a punctuation mark or an operator as it is
    /// written, a keyword by its word, `and` and `or` by `&&` and `||`.
    pub open spec fn text(self) -> Seq<char> {
        match self {
            TokenKind::LeftParen => "("@,
            TokenKind::RightParen => ")"@,
            TokenKind::LeftBrace => "{"@,
            TokenKind::RightBrace => "}"@,
            TokenKind::Comma => ","@,
            TokenKind::Dot => "."@,
            TokenKind::Minus => "-"@,
            TokenKind::Plus => "+"@,
            TokenKind::SemiColon => ";"@,
            TokenKind::Slash => "/"@,
            TokenKind::Star => "*"@,
            TokenKind::Bang => "!"@,
            TokenKind::BangEqual => "!="@,
            TokenKind::Equal => "="@,
            TokenKind::EqualEqual => "=="@,
            TokenKind::GreaterEqual => ">="@,
            TokenKind::Greater => ">"@,
            TokenKind::Less => "<"@,
            TokenKind::LessEqual => "<="@,
            TokenKind::Identifier => "identifier"@,
            TokenKind::String => "string"@,
            TokenKind::Number => "number"@,
            TokenKind::And => "&&"@,
            TokenKind::Class => "class"@,
            TokenKind::Else => "else"@,
            TokenKind::False => "false"@,
            TokenKind::Fun => "fun"@,
            TokenKind::For => "for"@,
            TokenKind::If => "if"@,
            TokenKind::Nil => "nil"@,
            TokenKind::Or => "||"@,
            TokenKind::Print => "print"@,
            TokenKind::Return => "return"@,
            TokenKind::Super => "super"@,
            TokenKind::This => "this"@,
            TokenKind::True => "true"@,
            TokenKind::Var => "var"@,
            TokenKind::While => "while"@,
            TokenKind::Eof => "eof"@,
        }
    }

    /// How the kind is shown.
    pub fn to_str(self) -> (text: &'static str)
        ensures
            text@ == self.text(),
    {
        match self {
            TokenKind::LeftParen => "(",
            TokenKind::RightParen => ")",
            TokenKind::LeftBrace => "{",
            TokenKind::RightBrace => "}",
            TokenKind::Comma => ",",
            TokenKind::Dot => ".",
            TokenKind::Minus => "-",
            TokenKind::Plus => "+",
            TokenKind::SemiColon => ";",
            TokenKind::Slash => "/",
            TokenKind::Star => "*",
            TokenKind::Bang => "!",
            TokenKind::BangEqual => "!=",
            TokenKind::Equal => "=",
            TokenKind::EqualEqual => "==",
            TokenKind::GreaterEqual => ">=",
            TokenKind::Greater => ">",
            TokenKind::Less => "<",
            TokenKind::LessEqual => "<=",
            TokenKind::Identifier => "identifier",
            TokenKind::String => "string",
            TokenKind::Number => "number",
            TokenKind::And => "&&",
            TokenKind::Class => "class",
            TokenKind::Else => "else",
            TokenKind::False => "false",
            TokenKind::Fun => "fun",
            TokenKind::For => "for",
            TokenKind::If => "if",
            TokenKind::Nil => "nil",
            TokenKind::Or => "||",
            TokenKind::Print => "print",
            TokenKind::Return => "return",
            TokenKind::Super => "super",
            TokenKind::This => "this",
            TokenKind::True => "true",
            TokenKind::Var => "var",
            TokenKind::While => "while",
            TokenKind::Eof => "eof",
        }
    }

    /// How the kind is shown.
    pub fn to_string(self) -> (text: String)
        ensures
            text@ == self.text(),
    {
        String::from_str(self.to_str())
    }
}

impl TokenType {
    /// How the token type is shown: a string or a number by its literal,
    /// every other one as its kind is.
    pub open spec fn text(&self) -> Seq<char> {
        match self {
            TokenType::String(text) => text@,
            TokenType::Number(numeral) => numeral@,
            _ => self.spec_kind().text(),
        }
    }

    /// How the token type is shown.
    pub fn to_string(&self) -> (text: String)
        ensures
            text@ == self.text(),
    {
        match self {
            TokenType::String(text) => text.clone(),
            TokenType::Number(numeral) => numeral.clone(),
            _ => self.kind().to_string(),
        }
    }

    /// The category of this token type.
    pub open spec fn spec_kind(&self) -> TokenKind {
        match self {
            TokenType::LeftParen => TokenKind::LeftParen,
            TokenType::RightParen => TokenKind::RightParen,
            TokenType::LeftBrace => TokenKind::LeftBrace,
            TokenType::RightBrace => TokenKind::RightBrace,
            TokenType::Comma => TokenKind::Comma,
            TokenType::Dot => TokenKind::Dot,
            TokenType::Minus => TokenKind::Minus,
            TokenType::Plus => TokenKind::Plus,
            TokenType::SemiColon => TokenKind::SemiColon,
            TokenType::Slash => TokenKind::Slash,
            TokenType::Star => TokenKind::Star,
            TokenType::Bang => TokenKind::Bang,
            TokenType::BangEqual => TokenKind::BangEqual,
            TokenType::Equal => TokenKind::Equal,
            TokenType::EqualEqual => TokenKind::EqualEqual,
            TokenType::GreaterEqual => TokenKind::GreaterEqual,
            TokenType::Greater => TokenKind::Greater,
            TokenType::Less => TokenKind::Less,
            TokenType::LessEqual => TokenKind::LessEqual,
            TokenType::Identifier => TokenKind::Identifier,
            TokenType::String(_) => TokenKind::String,
            TokenType::Number(_) => TokenKind::Number,
            TokenType::And => TokenKind::And,
            TokenType::Class => TokenKind::Class,
            TokenType::Else => TokenKind::Else,
            TokenType::False => TokenKind::False,
            TokenType::Fun => TokenKind::Fun,
            TokenType::For => TokenKind::For,
            TokenType::If => TokenKind::If,
            TokenType::Nil => TokenKind::Nil,
            TokenType::Or => TokenKind::Or,
            TokenType::Print => TokenKind::Print,
            TokenType::Return => TokenKind::Return,
            TokenType::Super => TokenKind::Super,
            TokenType::This => TokenKind::This,
            TokenType::True => TokenKind::True,
            TokenType::Var => TokenKind::Var,
            TokenType::While => TokenKind::While,
            TokenType::Eof => TokenKind::Eof,
        }
    }

    /// The literal payload: the text of a string literal, the numeral of a
    /// number literal, and nothing for every other token type.
    pub open spec fn spec_literal(&self) -> Seq<char> {
        match self {
            TokenType::String(text) => text@,
            TokenType::Number(numeral) => numeral@,
            _ => Seq::empty(),
        }
    }

    /// The category of this token type.
    #[verifier::when_used_as_spec(spec_kind)]
    pub fn kind(&self) -> (kind: TokenKind)
        ensures
            kind == self.spec_kind(),
    {
        match self {
            TokenType::LeftParen => TokenKind::LeftParen,
            TokenType::RightParen => TokenKind::RightParen,
            TokenType::LeftBrace => TokenKind::LeftBrace,
            TokenType::RightBrace => TokenKind::RightBrace,
            TokenType::Comma => TokenKind::Comma,
            TokenType::Dot => TokenKind::Dot,
            TokenType::Minus => TokenKind::Minus,
            TokenType::Plus => TokenKind::Plus,
            TokenType::SemiColon => TokenKind::SemiColon,
            TokenType::Slash => TokenKind::Slash,
            TokenType::Star => TokenKind::Star,
            TokenType::Bang => TokenKind::Bang,
            TokenType::BangEqual => TokenKind::BangEqual,
            TokenType::Equal => TokenKind::Equal,
            TokenType::EqualEqual => TokenKind::EqualEqual,
            TokenType::GreaterEqual => TokenKind::GreaterEqual,
            TokenType::Greater => TokenKind::Greater,
            TokenType::Less => TokenKind::Less,
            TokenType::LessEqual => TokenKind::LessEqual,
            TokenType::Identifier => TokenKind::Identifier,
            TokenType::String(_) => TokenKind::String,
            TokenType::Number(_) => TokenKind::Number,
            TokenType::And => TokenKind::And,
            TokenType::Class => TokenKind::Class,
            TokenType::Else => TokenKind::Else,
            TokenType::False => TokenKind::False,
            TokenType::Fun => TokenKind::Fun,
            TokenType::For => TokenKind::For,
            TokenType::If => TokenKind::If,
            TokenType::Nil => TokenKind::Nil,
            TokenType::Or => TokenKind::Or,
            TokenType::Print => TokenKind::Print,
            TokenType::Return => TokenKind::Return,
            TokenType::Super => TokenKind::Super,
            TokenType::This => TokenKind::This,
            TokenType::True => TokenKind::True,
            TokenType::Var => TokenKind::Var,
            TokenType::While => TokenKind::While,
            TokenType::Eof => TokenKind::Eof,
        }
    }
}

impl Clone for TokenType {
    fn clone(&self) -> (copy: Self)
        ensures
            copy == *self,
    {
        match self {
            TokenType::LeftParen => TokenType::LeftParen,
            TokenType::RightParen => TokenType::RightParen,
            TokenType::LeftBrace => TokenType::LeftBrace,
            TokenType::RightBrace => TokenType::RightBrace,
            TokenType::Comma => TokenType::Comma,
            TokenType::Dot => TokenType::Dot,
            TokenType::Minus => TokenType::Minus,
            TokenType::Plus => TokenType::Plus,
            TokenType::SemiColon => TokenType::SemiColon,
            TokenType::Slash => TokenType::Slash,
            TokenType::Star => TokenType::Star,
            TokenType::Bang => TokenType::Bang,
            TokenType::BangEqual => TokenType::BangEqual,
            TokenType::Equal => TokenType::Equal,
            TokenType::EqualEqual => TokenType::EqualEqual,
            TokenType::GreaterEqual => TokenType::GreaterEqual,
            TokenType::Greater => TokenType::Greater,
            TokenType::Less => TokenType::Less,
            TokenType::LessEqual => TokenType::LessEqual,
            TokenType::Identifier => TokenType::Identifier,
            TokenType::String(text) => TokenType::String(text.clone()),
            TokenType::Number(numeral) => TokenType::Number(numeral.clone()),
            TokenType::And => TokenType::And,
            TokenType::Class => TokenType::Class,
            TokenType::Else => TokenType::Else,
            TokenType::False => TokenType::False,
            TokenType::Fun => TokenType::Fun,
            TokenType::For => TokenType::For,
            TokenType::If => TokenType::If,
            TokenType::Nil => TokenType::Nil,
            TokenType::Or => TokenType::Or,
            TokenType::Print => TokenType::Print,
            TokenType::Return => TokenType::Return,
            TokenType::Super => TokenType::Super,
            TokenType::This => TokenType::This,
            TokenType::True => TokenType::True,
            TokenType::Var => TokenType::Var,
            TokenType::While => TokenType::While,
            TokenType::Eof => TokenType::Eof,
        }
    }
}

/// Represents a valid Lox token.
#[derive(Debug, PartialEq)]
pub struct Token {
    /// The type of the token, with the literal of a string or a number.
    pub token_type: TokenType,
    /// What the token looks like in the source. The lexeme of a `Plus` is `+`.
    pub lexeme: String,
    /// The line the token was found on, counted from 1.
    pub line: usize,
}

/// What a token says, with its texts as sequences of characters.
pub struct TokenView {
    pub kind: TokenKind,
    pub literal: Seq<char>,
    pub lexeme: Seq<char>,
    pub line: usize,
}

impl View for Token {
    type V = TokenView;

    open spec fn view(&self) -> TokenView {
        TokenView {
            kind: self.token_type.spec_kind(),
            literal: self.token_type.spec_literal(),
            lexeme: self.lexeme@,
            line: self.line,
        }
    }
}

impl Token {
    /// Standard constructor.
    pub fn new(token_type: TokenType, lexeme: String, line: usize) -> (token: Token)
        ensures
            token.token_type == token_type,
            token.lexeme == lexeme,
            token.line == line,
    {
        Self { token_type, lexeme, line }
    }

    /// The text of the token: its lexeme.
    pub fn to_string(&self) -> (text: String)
        ensures
            text@ == self.lexeme@,
    {
        self.lexeme.clone()
    }
}

impl Clone for Token {
    fn clone(&self) -> (copy: Self)
        ensures
            copy == *self,
    {
        Token {
            token_type: self.token_type.clone(),
            lexeme: self.lexeme.clone(),
            line: self.line,
        }
    }
}

/// The views of a sequence of tokens, in order.
pub open spec fn token_views(tokens: Seq<Token>) -> Seq<TokenView> {
    Seq::new(tokens.len(), |i: int| tokens[i]@)
}

} // verus!
