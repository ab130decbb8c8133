//! What the operators of Lox make of their operands.

use crate::error::runtime_error::{RuntimeError, RuntimeErrorView};
use crate::object::{LoxObject, LoxObjectView, Number};
use crate::token::{Token, TokenKind, TokenType, TokenView};
use vstd::prelude::*;
use vstd::string::*;

verus! {

/// The four operations on doubles that the interpreter leaves to the
/// embedding program.
#[derive(Debug, Clone, Copy, PartialEq, Eq, Structural)]
pub enum ArithmeticOp {
    Add,
    Subtract,
    Multiply,
    Divide,
}

/// What the interpreter asks of the embedding program.
#[derive(Debug, PartialEq)]
pub enum Request {
    /// The double that the decimal numeral spells. The answer is a number.
    Decode(String),
    /// The result of the operation on the two doubles, left operand first.
    /// The answer is a number.
    Arithmetic(ArithmeticOp, Number, Number),
    /// The shortest decimal numeral that reads back as the double. The answer
    /// is a string.
    Format(Number),
    /// The seconds since the Unix epoch. The answer is a number.
    Clock,
}

/// A request with its text as a sequence of characters.
pub enum RequestView {
    Decode(Seq<char>),
    Arithmetic(ArithmeticOp, Number, Number),
    Format(Number),
    Clock,
}

impl View for Request {
    type V = RequestView;

    open spec fn view(&self) -> RequestView {
        match self {
            Request::Decode(numeral) => RequestView::Decode(numeral@),
            Request::Arithmetic(op, left, right) => RequestView::Arithmetic(*op, *left, *right),
            Request::Format(number) => RequestView::Format(*number),
            Request::Clock => RequestView::Clock,
        }
    }
}

impl Clone for Request {
    fn clone(&self) -> (copy: Self)
        ensures
            copy == *self,
    {
        match self {
            Request::Decode(numeral) => Request::Decode(numeral.clone()),
            Request::Arithmetic(op, left, right) => Request::Arithmetic(*op, *left, *right),
            Request::Format(number) => Request::Format(*number),
            Request::Clock => Request::Clock,
        }
    }
}

/// What comes of applying an operator: a value, a request whose answer is
/// the value, or a runtime error.
#[derive(Debug)]
pub enum Evaluation<'a> {
    Value(LoxObject<'a>),
    Ask(Request),
    Error(RuntimeError),
}

/// An evaluation with its texts as sequences of characters.
pub enum EvaluationView<'a> {
    Value(LoxObjectView<'a>),
    Ask(RequestView),
    Error(RuntimeErrorView),
}

impl<'a> View for Evaluation<'a> {
    type V = EvaluationView<'a>;

    open spec fn view(&self) -> EvaluationView<'a> {
        match self {
            Evaluation::Value(value) => EvaluationView::Value(value@),
            Evaluation::Ask(request) => EvaluationView::Ask(request@),
            Evaluation::Error(error) => EvaluationView::Error(error@),
        }
    }
}

/// The runtime error at `token` with the message `message`.
pub open spec fn error_at(token: TokenView, message: Seq<char>) -> RuntimeErrorView {
    RuntimeErrorView { token, message }
}

/// The value of a literal: the text of a string, the double of a numeral
/// (which is asked for), `true`, `false` or `nil`. A token of another kind
/// is no literal.
pub open spec fn literal_value<'a>(token: TokenView) -> EvaluationView<'a> {
    match token.kind {
        TokenKind::String => EvaluationView::Value(LoxObjectView::String(token.literal)),
        TokenKind::Number => EvaluationView::Ask(RequestView::Decode(token.literal)),
        TokenKind::True => EvaluationView::Value(LoxObjectView::Boolean(true)),
        TokenKind::False => EvaluationView::Value(LoxObjectView::Boolean(false)),
        TokenKind::Nil => EvaluationView::Value(LoxObjectView::Nil),
        _ => EvaluationView::Error(
            error_at(token, "Parsed token "@ + token.lexeme + " as a Literal"@),
        ),
    }
}

/// What a prefix operator makes of its operand: `!` the opposite of its
/// truthiness, `-` the opposite number, and of anything but a number an
/// error. No other token is a prefix operator.
pub open spec fn unary_value<'a>(operator: TokenView, operand: LoxObjectView<'a>)
    -> EvaluationView<'a> {
    match operator.kind {
        TokenKind::Bang => EvaluationView::Value(LoxObjectView::Boolean(!operand.is_truthy())),
        TokenKind::Minus => match operand {
            LoxObjectView::Number(number) => EvaluationView::Value(
                LoxObjectView::Number(number.spec_negate()),
            ),
            _ => EvaluationView::Error(
                error_at(operator, "Unary '-' can only be applied to numbers."@),
            ),
        },
        _ => EvaluationView::Error(
            error_at(operator, "token '"@ + operator.lexeme + "' cannot be used as unary"@),
        ),
    }
}

/// The error of an arithmetic or comparison operator that met something
/// other than two numbers.
pub open spec fn numbers_only(operator: TokenView) -> RuntimeErrorView {
    error_at(operator, "Operator `"@ + operator.lexeme + "` only applies to number types"@)
}

/// What an arithmetic or comparison operator makes of two numbers. The four
/// arithmetic results are asked for; the comparisons are read off the bits.
pub open spec fn numeric_value<'a>(operator: TokenView, left: Number, right: Number)
    -> EvaluationView<'a> {
    match operator.kind {
        TokenKind::Minus => EvaluationView::Ask(
            RequestView::Arithmetic(ArithmeticOp::Subtract, left, right),
        ),
        TokenKind::Star => EvaluationView::Ask(
            RequestView::Arithmetic(ArithmeticOp::Multiply, left, right),
        ),
        TokenKind::Slash => EvaluationView::Ask(
            RequestView::Arithmetic(ArithmeticOp::Divide, left, right),
        ),
        TokenKind::Greater => EvaluationView::Value(
            LoxObjectView::Boolean(right.spec_less(left)),
        ),
        TokenKind::GreaterEqual => EvaluationView::Value(
            LoxObjectView::Boolean(right.spec_less_equal(left)),
        ),
        TokenKind::Less => EvaluationView::Value(LoxObjectView::Boolean(left.spec_less(right))),
        TokenKind::LessEqual => EvaluationView::Value(
            LoxObjectView::Boolean(left.spec_less_equal(right)),
        ),
        _ => EvaluationView::Error(
            error_at(
                operator,
                "Cannot use token "@ + operator.lexeme + " for binary operation"@,
            ),
        ),
    }
}

/// What a binary operator makes of its two operands.
///
/// `==` and `!=` compare any two values. `+` adds two numbers and joins two
/// strings, and is an error on anything else. The other operators take two
/// numbers, and are an error on anything else.
pub open spec fn binary_value<'a>(
    operator: TokenView,
    left: LoxObjectView<'a>,
    right: LoxObjectView<'a>,
) -> EvaluationView<'a> {
    match operator.kind {
        TokenKind::EqualEqual => EvaluationView::Value(LoxObjectView::Boolean(left.equals(right))),
        TokenKind::BangEqual => EvaluationView::Value(
            LoxObjectView::Boolean(!left.equals(right)),
        ),
        TokenKind::Plus => match (left, right) {
            (LoxObjectView::Number(l), LoxObjectView::Number(r)) => EvaluationView::Ask(
                RequestView::Arithmetic(ArithmeticOp::Add, l, r),
            ),
            (LoxObjectView::String(l), LoxObjectView::String(r)) => EvaluationView::Value(
                LoxObjectView::String(l + r),
            ),
            _ => EvaluationView::Error(
                error_at(
                    operator,
                    "Can only add number + number or concatenate string + string"@,
                ),
            ),
        },
        _ => match (left, right) {
            (LoxObjectView::Number(l), LoxObjectView::Number(r)) => numeric_value(operator, l, r),
            _ => EvaluationView::Error(numbers_only(operator)),
        },
    }
}

/// True where a logical operator is done after its left operand: `or` after
/// a truthy one, `and` after a falsey one. The left operand is then the
/// result, and the right operand is not evaluated.
pub open spec fn short_circuits(operator: TokenKind, left: LoxObjectView) -> bool {
    if operator == TokenKind::Or {
        left.is_truthy()
    } else {
        !left.is_truthy()
    }
}

/// A runtime error at `token` whose message is `before`, the lexeme of the
/// token and `after`.
fn error_naming(token: &Token, before: &str, after: &str) -> (error: RuntimeError)
    ensures
        error@ == error_at(token@, before@ + token.lexeme@ + after@),
{
    let mut message = String::from_str(before);
    message.append(token.lexeme.as_str());
    message.append(after);
    RuntimeError::new(token.clone(), message)
}

/// Transform the token of a literal expression into a value.
pub fn evaluate_literal<'a>(token: &Token) -> (evaluation: Evaluation<'a>)
    ensures
        evaluation@ == literal_value::<'a>(token@),
{
    match &token.token_type {
        TokenType::String(text) => Evaluation::Value(LoxObject::String(text.clone())),
        TokenType::Number(numeral) => Evaluation::Ask(Request::Decode(numeral.clone())),
        TokenType::True => Evaluation::Value(LoxObject::Boolean(true)),
        TokenType::False => Evaluation::Value(LoxObject::Boolean(false)),
        TokenType::Nil => Evaluation::Value(LoxObject::Nil),
        _ => Evaluation::Error(error_naming(token, "Parsed token ", " as a Literal")),
    }
}

/// Applies a prefix operator to the value of its operand.
pub fn evaluate_unary<'a>(operator: &Token, right: LoxObject<'a>) -> (evaluation: Evaluation<'a>)
    ensures
        evaluation@ == unary_value(operator@, right@),
{
    match operator.token_type.kind() {
        TokenKind::Bang => {
            // !some_var should return a boolean based on whether the object
            // conforms to Lox's conception of "truthiness"
            Evaluation::Value(LoxObject::Boolean(!right.is_truthy()))
        },
        TokenKind::Minus => {
            // The unary minus negates a number, but for anything else
            // produces a runtime error
            match right {
                LoxObject::Number(n) => Evaluation::Value(LoxObject::Number(n.negate())),
                _ => Evaluation::Error(
                    RuntimeError::new(
                        operator.clone(),
                        String::from_str("Unary '-' can only be applied to numbers."),
                    ),
                ),
            }
        },
        _ => {
            // No other operators other than ! and - can be used in a unary
            // way.
            Evaluation::Error(error_naming(operator, "token '", "' cannot be used as unary"))
        },
    }
}

/// Applies an arithmetic or comparison operator to two numbers.
fn evaluate_numeric<'a>(operator: &Token, l: Number, r: Number) -> (evaluation: Evaluation<'a>)
    ensures
        evaluation@ == numeric_value::<'a>(operator@, l, r),
{
    match operator.token_type.kind() {
        TokenKind::Minus => Evaluation::Ask(Request::Arithmetic(ArithmeticOp::Subtract, l, r)),
        TokenKind::Star => Evaluation::Ask(Request::Arithmetic(ArithmeticOp::Multiply, l, r)),
        TokenKind::Slash => Evaluation::Ask(Request::Arithmetic(ArithmeticOp::Divide, l, r)),
        TokenKind::Greater => Evaluation::Value(LoxObject::Boolean(r.less(l))),
        TokenKind::GreaterEqual => Evaluation::Value(LoxObject::Boolean(r.less_equal(l))),
        TokenKind::Less => Evaluation::Value(LoxObject::Boolean(l.less(r))),
        TokenKind::LessEqual => Evaluation::Value(LoxObject::Boolean(l.less_equal(r))),
        _ => Evaluation::Error(
            error_naming(operator, "Cannot use token ", " for binary operation"),
        ),
    }
}

/// Applies a binary operator to the values of its two operands.
pub fn evaluate_binary<'a>(operator: &Token, left: LoxObject<'a>, right: LoxObject<'a>) -> (evaluation:
    Evaluation<'a>)
    ensures
        evaluation@ == binary_value(operator@, left@, right@),
{
    match operator.token_type.kind() {
        TokenKind::EqualEqual => Evaluation::Value(LoxObject::Boolean(left.equals(&right))),
        TokenKind::BangEqual => Evaluation::Value(LoxObject::Boolean(!left.equals(&right))),
        // The `+` operator adds numbers and concatenates strings in lox, so
        // we handle both cases and error otherwise.
        TokenKind::Plus => {
            match (left, right) {
                (LoxObject::Number(l), LoxObject::Number(r)) => Evaluation::Ask(
                    Request::Arithmetic(ArithmeticOp::Add, l, r),
                ),
                (LoxObject::String(l), LoxObject::String(r)) => {
                    let mut joined = l;
                    joined.append(r.as_str());
                    Evaluation::Value(LoxObject::String(joined))
                },
                _ => Evaluation::Error(
                    RuntimeError::new(
                        operator.clone(),
                        String::from_str(
                            "Can only add number + number or concatenate string + string",
                        ),
                    ),
                ),
            }
        },
        _ => {
            // The rest of the operators only apply to numbers.
            match (left, right) {
                (LoxObject::Number(l), LoxObject::Number(r)) => evaluate_numeric(operator, l, r),
                _ => Evaluation::Error(
                    error_naming(operator, "Operator `", "` only applies to number types"),
                ),
            }
        },
    }
}

/// Decides, after the left operand of `and` or `or`, whether the right
/// operand is left alone.
pub fn evaluate_logical_expression(operator: &Token, left: &LoxObject) -> (done: bool)
    ensures
        done == short_circuits(operator@.kind, left@),
{
    if operator.token_type.kind() == TokenKind::Or {
        left.is_truthy()
    } else {
        !left.is_truthy()
    }
}

} // verus!
