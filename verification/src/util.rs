use crate::token::{TokenKind, TokenType};
use vstd::prelude::*;
use vstd::string::*;

verus! {

/// True for the ten decimal digits `0` to `9`.
pub open spec fn spec_is_digit(c: char) -> bool {
    '0' <= c && c <= '9'
}

/// True for the English letters in either case and for the underscore.
pub open spec fn spec_is_alpha(c: char) -> bool {
    ('a' <= c && c <= 'z') || ('A' <= c && c <= 'Z') || c == '_'
}

/// True for what may follow the first character of an identifier.
pub open spec fn spec_is_alpha_numeric(c: char) -> bool {
    spec_is_alpha(c) || spec_is_digit(c)
}

/// Digits 0-9.
#[verifier::when_used_as_spec(spec_is_digit)]
pub fn is_digit(c: char) -> (r: bool)
    ensures
        r == spec_is_digit(c),
{
    c >= '0' && c <= '9'
}

/// Lowercase and uppercase English letters a-z, A-Z, and underscores.
#[verifier::when_used_as_spec(spec_is_alpha)]
pub fn is_alpha(l: char) -> (r: bool)
    ensures
        r == spec_is_alpha(l),
{
    (l >= 'a' && l <= 'z') || (l >= 'A' && l <= 'Z') || l == '_'
}

/// Lox's definition of a valid alphanumeric character: digits 0-9, lowercase
/// and uppercase English letters a-z, A-Z, and underscores.
#[verifier::when_used_as_spec(spec_is_alpha_numeric)]
pub fn is_alpha_numeric(c: char) -> (r: bool)
    ensures
        r == spec_is_alpha_numeric(c),
{
    is_alpha(c) || is_digit(c)
}

/// The reserved words of Lox, each with the kind of its token.
pub open spec fn spec_keywords() -> Seq<(Seq<char>, TokenKind)> {
    seq![
        ("and"@, TokenKind::And),
        ("class"@, TokenKind::Class),
        ("else"@, TokenKind::Else),
        ("false"@, TokenKind::False),
        ("for"@, TokenKind::For),
        ("fun"@, TokenKind::Fun),
        ("if"@, TokenKind::If),
        ("nil"@, TokenKind::Nil),
        ("or"@, TokenKind::Or),
        ("return"@, TokenKind::Return),
        ("super"@, TokenKind::Super),
        ("this"@, TokenKind::This),
        ("true"@, TokenKind::True),
        ("var"@, TokenKind::Var),
        ("while"@, TokenKind::While),
    ]
}

/// The kind of the first entry of `table`, from index `from` on, whose word
/// is `word`.
pub open spec fn lookup(table: Seq<(Seq<char>, TokenKind)>, word: Seq<char>, from: int) -> Option<
    TokenKind,
>
    decreases table.len() - from,
{
    if from < 0 || from >= table.len() {
        None
    } else if table[from].0 == word {
        Some(table[from].1)
    } else {
        lookup(table, word, from + 1)
    }
}

/// The kind of the keyword that `lexeme` spells, if it spells one.
pub open spec fn spec_keyword_kind(lexeme: Seq<char>) -> Option<TokenKind> {
    lookup(spec_keywords(), lexeme, 0)
}

/// Returns all valid Lox keywords and their respective token types.
pub fn keywords() -> (table: Vec<(String, TokenType)>)
    ensures
        table@.len() == spec_keywords().len(),
        forall|i: int|
            0 <= i < table@.len() ==> {
                &&& (#[trigger] table@[i]).0@ == spec_keywords()[i].0
                &&& table@[i].1.spec_kind() == spec_keywords()[i].1
                &&& table@[i].1.spec_literal() == Seq::<char>::empty()
            },
{
    let mut table: Vec<(String, TokenType)> = Vec::new();
    table.push((String::from_str("and"), TokenType::And));
    table.push((String::from_str("class"), TokenType::Class));
    table.push((String::from_str("else"), TokenType::Else));
    table.push((String::from_str("false"), TokenType::False));
    table.push((String::from_str("for"), TokenType::For));
    table.push((String::from_str("fun"), TokenType::Fun));
    table.push((String::from_str("if"), TokenType::If));
    table.push((String::from_str("nil"), TokenType::Nil));
    table.push((String::from_str("or"), TokenType::Or));
    table.push((String::from_str("return"), TokenType::Return));
    table.push((String::from_str("super"), TokenType::Super));
    table.push((String::from_str("this"), TokenType::This));
    table.push((String::from_str("true"), TokenType::True));
    table.push((String::from_str("var"), TokenType::Var));
    table.push((String::from_str("while"), TokenType::While));
    table
}

/// The token type of the keyword that `lexeme` spells, if it spells one.
pub fn keyword_kind(lexeme: &String) -> (keyword: Option<TokenType>)
    ensures
        match keyword {
            Some(token_type) => spec_keyword_kind(lexeme@) == Some(token_type.spec_kind())
                && token_type.spec_literal() == Seq::<char>::empty(),
            None => spec_keyword_kind(lexeme@) is None,
        },
{
    let table = keywords();
    let mut i: usize = 0;
    while i < table.len()
        invariant
            i <= table.len(),
            table@.len() == spec_keywords().len(),
            forall|j: int|
                0 <= j < table@.len() ==> {
                    &&& (#[trigger] table@[j]).0@ == spec_keywords()[j].0
                    &&& table@[j].1.spec_kind() == spec_keywords()[j].1
                    &&& table@[j].1.spec_literal() == Seq::<char>::empty()
                },
            spec_keyword_kind(lexeme@) == lookup(spec_keywords(), lexeme@, i as int),
        decreases table.len() - i,
    {
        if table[i].0 == *lexeme {
            return Some(table[i].1.clone());
        }
        i += 1;
    }
    None
}

/// Strips the first and last character of a string.
pub fn strip_quotes(s: String) -> (inner: String)
    requires
        s@.len() >= 2,
    ensures
        inner@ == s@.subrange(1, s@.len() - 1),
{
    let text = s.as_str();
    let length = text.unicode_len();
    String::from_str(text.substring_char(1, length - 1))
}

/// The characters of `s`, in order.
pub fn to_chars(s: &str) -> (chars: Vec<char>)
    ensures
        chars@ == s@,
{
    let mut chars: Vec<char> = Vec::new();
    for c in it: s.chars()
        invariant
            chars@ == it.seq().take(it.index() as int),
    {
        chars.push(c);
    }
    chars
}

/// `String::from_iter` on a slice of characters: the string that holds those
/// characters, in order.
#[verifier::external_body]
pub(crate) fn string_from_chars(chars: &[char]) -> (text: String)
    ensures
        text@ == chars@,
{
    String::from_iter(chars)
}

/// The character of the decimal digit `digit`.
pub open spec fn digit_char(digit: nat) -> char {
    if digit == 0 {
        '0'
    } else if digit == 1 {
        '1'
    } else if digit == 2 {
        '2'
    } else if digit == 3 {
        '3'
    } else if digit == 4 {
        '4'
    } else if digit == 5 {
        '5'
    } else if digit == 6 {
        '6'
    } else if digit == 7 {
        '7'
    } else if digit == 8 {
        '8'
    } else {
        '9'
    }
}

/// The decimal numeral of `n`, without leading zeros.
pub open spec fn spec_decimal(n: nat) -> Seq<char>
    decreases n,
{
    if n < 10 {
        seq![digit_char(n)]
    } else {
        spec_decimal(n / 10).push(digit_char(n % 10))
    }
}

/// The numeral of one decimal digit.
fn digit_text(digit: usize) -> (text: &'static str)
    requires
        digit < 10,
    ensures
        text@ == seq![digit_char(digit as nat)],
{
    proof {
        reveal_strlit("0");
        reveal_strlit("1");
        reveal_strlit("2");
        reveal_strlit("3");
        reveal_strlit("4");
        reveal_strlit("5");
        reveal_strlit("6");
        reveal_strlit("7");
        reveal_strlit("8");
        reveal_strlit("9");
    }
    let text = if digit == 0 {
        "0"
    } else if digit == 1 {
        "1"
    } else if digit == 2 {
        "2"
    } else if digit == 3 {
        "3"
    } else if digit == 4 {
        "4"
    } else if digit == 5 {
        "5"
    } else if digit == 6 {
        "6"
    } else if digit == 7 {
        "7"
    } else if digit == 8 {
        "8"
    } else {
        "9"
    };
    assert(text@ =~= seq![digit_char(digit as nat)]);
    text
}

/// The decimal numeral of `n`, without leading zeros.
pub fn decimal(n: usize) -> (text: String)
    ensures
        text@ == spec_decimal(n as nat),
    decreases n,
{
    if n < 10 {
        String::from_str(digit_text(n))
    } else {
        let mut text = decimal(n / 10);
        text.append(digit_text(n % 10));
        assert(text@ =~= spec_decimal((n / 10) as nat).push(digit_char((n % 10) as nat)));
        text
    }
}

} // verus!
