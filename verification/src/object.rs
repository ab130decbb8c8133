use crate::callable::Callable;
use vstd::prelude::*;

verus! {

/// A Lox number: an IEEE-754 double, held by its 64 bits. The sign is the
/// top bit, the eleven bits below it are the exponent and the rest is the
/// fraction. Arithmetic on doubles is not done here: the interpreter asks the
/// embedding program for it. What can be read off the bits is.
#[derive(Debug, Clone, Copy, PartialEq, Eq, Structural, Hash)]
pub struct Number {
    pub bits: u64,
}

/// The bits of a double but its sign.
pub const MAGNITUDE: u64 = 0x7fff_ffff_ffff_ffff;

/// The magnitude bits of the infinities. Every larger magnitude is a NaN.
pub const INFINITY: u64 = 0x7ff0_0000_0000_0000;

/// The sign bit of a double.
pub const SIGN: u64 = 0x8000_0000_0000_0000;

impl Number {
    /// The magnitude of the double: its bits without the sign.
    pub open spec fn spec_magnitude(self) -> u64 {
        self.bits & MAGNITUDE
    }

    /// True where the double is not a number.
    pub open spec fn spec_is_nan(self) -> bool {
        self.spec_magnitude() > INFINITY
    }

    /// True where the sign bit is set.
    pub open spec fn spec_is_negative(self) -> bool {
        self.bits & SIGN != 0
    }

    /// Where the double stands among the doubles that are numbers: doubles
    /// compare as these integers do. Both zeros stand at 0.
    pub open spec fn rank(self) -> int {
        if self.spec_is_negative() {
            -(self.spec_magnitude() as int)
        } else {
            self.spec_magnitude() as int
        }
    }

    /// IEEE equality: a NaN equals nothing, the two zeros are equal.
    pub open spec fn spec_equals(self, other: Number) -> bool {
        !self.spec_is_nan() && !other.spec_is_nan() && self.rank() == other.rank()
    }

    /// IEEE `<`: false where either side is a NaN.
    pub open spec fn spec_less(self, other: Number) -> bool {
        !self.spec_is_nan() && !other.spec_is_nan() && self.rank() < other.rank()
    }

    /// IEEE `<=`: false where either side is a NaN.
    pub open spec fn spec_less_equal(self, other: Number) -> bool {
        !self.spec_is_nan() && !other.spec_is_nan() && self.rank() <= other.rank()
    }

    /// The double with the opposite sign.
    pub open spec fn spec_negate(self) -> Number {
        Number { bits: self.bits ^ SIGN }
    }

    /// The magnitude of the double: its bits without the sign.
    #[verifier::when_used_as_spec(spec_magnitude)]
    pub fn magnitude(self) -> (magnitude: u64)
        ensures
            magnitude == self.spec_magnitude(),
            magnitude <= MAGNITUDE,
    {
        let bits = self.bits;
        assert(bits & MAGNITUDE <= MAGNITUDE) by (bit_vector);
        self.bits & MAGNITUDE
    }

    /// True where the double is not a number.
    #[verifier::when_used_as_spec(spec_is_nan)]
    pub fn is_nan(self) -> (nan: bool)
        ensures
            nan == self.spec_is_nan(),
    {
        self.magnitude() > INFINITY
    }

    /// True where the sign bit is set.
    #[verifier::when_used_as_spec(spec_is_negative)]
    pub fn is_negative(self) -> (negative: bool)
        ensures
            negative == self.spec_is_negative(),
    {
        self.bits & SIGN != 0
    }

    /// IEEE equality: a NaN equals nothing, the two zeros are equal.
    #[verifier::when_used_as_spec(spec_equals)]
    pub fn equals(self, other: Number) -> (equal: bool)
        ensures
            equal == self.spec_equals(other),
    {
        if self.is_nan() || other.is_nan() {
            false
        } else if self.magnitude() == 0 && other.magnitude() == 0 {
            true
        } else {
            self.is_negative() == other.is_negative() && self.magnitude() == other.magnitude()
        }
    }

    /// IEEE `<`: false where either side is a NaN.
    #[verifier::when_used_as_spec(spec_less)]
    pub fn less(self, other: Number) -> (less: bool)
        ensures
            less == self.spec_less(other),
    {
        if self.is_nan() || other.is_nan() {
            false
        } else if self.is_negative() {
            if other.is_negative() {
                self.magnitude() > other.magnitude()
            } else {
                self.magnitude() != 0 || other.magnitude() != 0
            }
        } else {
            !other.is_negative() && self.magnitude() < other.magnitude()
        }
    }

    /// IEEE `<=`: false where either side is a NaN.
    #[verifier::when_used_as_spec(spec_less_equal)]
    pub fn less_equal(self, other: Number) -> (less_equal: bool)
        ensures
            less_equal == self.spec_less_equal(other),
    {
        self.less(other) || self.equals(other)
    }

    /// The double with the opposite sign.
    #[verifier::when_used_as_spec(spec_negate)]
    pub fn negate(self) -> (negated: Number)
        ensures
            negated == self.spec_negate(),
    {
        Number { bits: self.bits ^ SIGN }
    }
}

/// A value of a running Lox program.
#[derive(Debug)]
pub enum LoxObject<'a> {
    String(String),
    Number(Number),
    Boolean(bool),
    Nil,
    Function(Callable<'a>),
}

/// A value with its text as a sequence of characters.
pub enum LoxObjectView<'a> {
    String(Seq<char>),
    Number(Number),
    Boolean(bool),
    Nil,
    Function(Callable<'a>),
}

impl<'a> View for LoxObject<'a> {
    type V = LoxObjectView<'a>;

    open spec fn view(&self) -> LoxObjectView<'a> {
        match self {
            LoxObject::String(text) => LoxObjectView::String(text@),
            LoxObject::Number(number) => LoxObjectView::Number(*number),
            LoxObject::Boolean(boolean) => LoxObjectView::Boolean(*boolean),
            LoxObject::Nil => LoxObjectView::Nil,
            LoxObject::Function(callable) => LoxObjectView::Function(*callable),
        }
    }
}

impl<'a> LoxObjectView<'a> {
    /// Truthiness: `false` and `nil` are falsey, every other value is truthy.
    pub open spec fn is_truthy(self) -> bool {
        match self {
            LoxObjectView::Boolean(boolean) => boolean,
            LoxObjectView::Nil => false,
            _ => true,
        }
    }

    /// Lox equality: `nil` equals `nil`, strings and booleans are equal when
    /// they hold the same, numbers as IEEE says, and a function equals
    /// nothing, not even itself. Values of different kinds are not equal.
    pub open spec fn equals(self, other: LoxObjectView<'a>) -> bool {
        match (self, other) {
            (LoxObjectView::Nil, LoxObjectView::Nil) => true,
            (LoxObjectView::String(l), LoxObjectView::String(r)) => l == r,
            (LoxObjectView::Number(l), LoxObjectView::Number(r)) => l.spec_equals(r),
            (LoxObjectView::Boolean(l), LoxObjectView::Boolean(r)) => l == r,
            _ => false,
        }
    }
}

impl<'a> LoxObject<'a> {
    /// Casts a value to a bool: exactly `false` and `nil` are falsey.
    pub fn is_truthy(&self) -> (truthy: bool)
        ensures
            truthy == self@.is_truthy(),
            truthy == !(self@ == LoxObjectView::<'a>::Nil || self@ == LoxObjectView::<
                'a,
            >::Boolean(false)),
    {
        match self {
            // Boolean is its own value
            LoxObject::Boolean(b) => *b,
            // Nil is false
            LoxObject::Nil => false,
            // Everything else is true
            _ => true,
        }
    }

    /// Lox equality of two values.
    pub fn equals(&self, other: &LoxObject<'a>) -> (equal: bool)
        ensures
            equal == self@.equals(other@),
    {
        match (self, other) {
            (LoxObject::Nil, LoxObject::Nil) => true,
            (LoxObject::String(l), LoxObject::String(r)) => *l == *r,
            (LoxObject::Number(l), LoxObject::Number(r)) => l.equals(*r),
            (LoxObject::Boolean(l), LoxObject::Boolean(r)) => *l == *r,
            // Functions are never equal: even if the code is the same, they
            // enclose different environments.
            _ => false,
        }
    }
}

impl<'a> Clone for LoxObject<'a> {
    fn clone(&self) -> (copy: Self)
        ensures
            copy == *self,
    {
        match self {
            LoxObject::String(text) => LoxObject::String(text.clone()),
            LoxObject::Number(number) => LoxObject::Number(*number),
            LoxObject::Boolean(boolean) => LoxObject::Boolean(*boolean),
            LoxObject::Nil => LoxObject::Nil,
            LoxObject::Function(callable) => LoxObject::Function(*callable),
        }
    }
}

} // verus!
