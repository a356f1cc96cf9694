//! The arithmetic and comparison rules over runtime values.
use vstd::prelude::*;

use crate::ast::{Datatype, ValueModel, TypeInfo, value_result};
use crate::error::{LangError, LangResult};
use crate::text::{concat, decimal_text, number_text};

verus! {

pub open spec fn abs(a: int) -> int {
    if a < 0 { -a } else { a }
}

/// Quotient rounded toward zero.
pub open spec fn trunc_div(a: int, b: int) -> int {
    if (a < 0) == (b < 0) {
        abs(a) / abs(b)
    } else {
        -(abs(a) / abs(b))
    }
}

/// Remainder of the division rounded toward zero: it takes the sign of `a`.
pub open spec fn trunc_rem(a: int, b: int) -> int {
    if a < 0 {
        -(abs(a) % abs(b))
    } else {
        abs(a) % abs(b)
    }
}

pub open spec fn fits_i32(x: int) -> bool {
    i32::MIN <= x <= i32::MAX
}

/// A number result: the exact value when it fits in 32 bits, else an overflow.
pub open spec fn number_result(x: int) -> Result<ValueModel, LangError> {
    if fits_i32(x) {
        Ok(ValueModel::Number(x as i32))
    } else {
        Err(LangError::ArithmeticOverflow)
    }
}

/// `+`: numbers add; a number and a string concatenate with the number in decimal.
pub open spec fn add_spec(l: ValueModel, r: ValueModel) -> Result<ValueModel, LangError> {
    match (l, r) {
        (ValueModel::Number(a), ValueModel::Number(b)) => number_result(a + b),
        (ValueModel::Number(a), ValueModel::Str(t)) => Ok(ValueModel::Str(decimal_text(a as int) + t)),
        (ValueModel::Str(s), ValueModel::Number(b)) => Ok(ValueModel::Str(s + decimal_text(b as int))),
        (ValueModel::Str(s), ValueModel::Str(t)) => Ok(ValueModel::Str(s + t)),
        _ => Err(LangError::UnsupportedArithimaticOperation),
    }
}

/// The operators defined on two numbers only.
pub enum NumericOp {
    Subtract,
    Multiply,
    Divide,
    Modulo,
}

pub open spec fn numeric_spec(op: NumericOp, l: ValueModel, r: ValueModel) -> Result<ValueModel, LangError> {
    match (l, r) {
        (ValueModel::Number(a), ValueModel::Number(b)) => match op {
            NumericOp::Subtract => number_result(a - b),
            NumericOp::Multiply => number_result(a * b),
            NumericOp::Divide => if b == 0 {
                Err(LangError::DivideByZero)
            } else {
                number_result(trunc_div(a as int, b as int))
            },
            NumericOp::Modulo => if b == 0 {
                Err(LangError::DivideByZero)
            } else {
                number_result(trunc_rem(a as int, b as int))
            },
        },
        _ => Err(LangError::UnsupportedArithimaticOperation),
    }
}

/// The ordering comparisons, defined on two numbers only.
pub enum Comparison {
    GreaterThan,
    LessThan,
    GreaterThanOrEqual,
    LessThanOrEqual,
}

pub open spec fn compare_spec(op: Comparison, l: ValueModel, r: ValueModel) -> Result<ValueModel, LangError> {
    match (l, r) {
        (ValueModel::Number(a), ValueModel::Number(b)) => Ok(ValueModel::Bool(match op {
            Comparison::GreaterThan => a > b,
            Comparison::LessThan => a < b,
            Comparison::GreaterThanOrEqual => a >= b,
            Comparison::LessThanOrEqual => a <= b,
        })),
        _ => Err(LangError::UnsupportedArithimaticOperation),
    }
}

pub open spec fn increment_spec(v: ValueModel) -> Result<ValueModel, LangError> {
    match v {
        ValueModel::Number(a) => number_result(a + 1),
        _ => Err(LangError::IncrementNonNumber),
    }
}

pub open spec fn decrement_spec(v: ValueModel) -> Result<ValueModel, LangError> {
    match v {
        ValueModel::Number(a) => number_result(a - 1),
        _ => Err(LangError::DecrementNonNumber),
    }
}

pub open spec fn invert_spec(v: ValueModel) -> Result<ValueModel, LangError> {
    match v {
        ValueModel::Bool(b) => Ok(ValueModel::Bool(!b)),
        _ => Err(LangError::InvertNonBoolean),
    }
}

pub open spec fn negate_spec(v: ValueModel) -> Result<ValueModel, LangError> {
    match v {
        ValueModel::Number(a) => number_result(-a),
        _ => Err(LangError::NegateNotNumber),
    }
}

fn checked_number(x: i64) -> (r: LangResult)
    ensures
        value_result(r) == number_result(x as int),
{
    if i32::MIN as i64 <= x && x <= i32::MAX as i64 {
        Ok(Datatype::Number(x as i32))
    } else {
        Err(LangError::ArithmeticOverflow)
    }
}

fn magnitude(a: i32) -> (r: u32)
    ensures
        r as int == abs(a as int),
{
    if a < 0 {
        (-(a as i64)) as u32
    } else {
        a as u32
    }
}

impl Datatype {
    /// Addition, and concatenation where a string is involved.
    pub fn add(self, other: Datatype) -> (r: LangResult)
        ensures
            value_result(r) == add_spec(self@, other@),
    {
        match self {
            Datatype::Number(lhs) => match other {
                Datatype::Number(rhs) => checked_number(lhs as i64 + rhs as i64),
                Datatype::String(rhs) => Ok(Datatype::String(concat(number_text(lhs), rhs.as_str()))),
                _ => Err(LangError::UnsupportedArithimaticOperation),
            },
            Datatype::String(lhs) => match other {
                Datatype::Number(rhs) => {
                    let t = number_text(rhs);
                    Ok(Datatype::String(concat(lhs, t.as_str())))
                },
                Datatype::String(rhs) => Ok(Datatype::String(concat(lhs, rhs.as_str()))),
                _ => Err(LangError::UnsupportedArithimaticOperation),
            },
            _ => Err(LangError::UnsupportedArithimaticOperation),
        }
    }

    fn numeric(self, other: Datatype, op: NumericOp) -> (r: LangResult)
        ensures
            value_result(r) == numeric_spec(op, self@, other@),
    {
        match (self, other) {
            (Datatype::Number(a), Datatype::Number(b)) => match op {
                NumericOp::Subtract => checked_number(a as i64 - b as i64),
                NumericOp::Multiply => {
                    assert(-0x4000_0000_0000_0000 <= (a as int) * (b as int) <= 0x4000_0000_0000_0000)
                        by (nonlinear_arith)
                        requires
                            -0x8000_0000 <= a <= 0x7fff_ffff,
                            -0x8000_0000 <= b <= 0x7fff_ffff,
                    ;
                    checked_number(a as i64 * b as i64)
                },
                NumericOp::Divide => {
                    if b == 0 {
                        Err(LangError::DivideByZero)
                    } else {
                        let m = magnitude(a) / magnitude(b);
                        if (a < 0) == (b < 0) {
                            checked_number(m as i64)
                        } else {
                            checked_number(-(m as i64))
                        }
                    }
                },
                NumericOp::Modulo => {
                    if b == 0 {
                        Err(LangError::DivideByZero)
                    } else {
                        let m = magnitude(a) % magnitude(b);
                        if a < 0 {
                            checked_number(-(m as i64))
                        } else {
                            checked_number(m as i64)
                        }
                    }
                },
            },
            _ => Err(LangError::UnsupportedArithimaticOperation),
        }
    }

    /// Subtraction of two numbers.
    pub fn sub(self, other: Datatype) -> (r: LangResult)
        ensures
            value_result(r) == numeric_spec(NumericOp::Subtract, self@, other@),
    {
        self.numeric(other, NumericOp::Subtract)
    }

    /// Multiplication of two numbers.
    pub fn mul(self, other: Datatype) -> (r: LangResult)
        ensures
            value_result(r) == numeric_spec(NumericOp::Multiply, self@, other@),
    {
        self.numeric(other, NumericOp::Multiply)
    }

    /// Division of two numbers, rounding toward zero.
    pub fn div(self, other: Datatype) -> (r: LangResult)
        ensures
            value_result(r) == numeric_spec(NumericOp::Divide, self@, other@),
    {
        self.numeric(other, NumericOp::Divide)
    }

    /// Remainder of two numbers, with the sign of the left one.
    pub fn rem(self, other: Datatype) -> (r: LangResult)
        ensures
            value_result(r) == numeric_spec(NumericOp::Modulo, self@, other@),
    {
        self.numeric(other, NumericOp::Modulo)
    }

    fn compare(&self, other: &Datatype, op: Comparison) -> (r: LangResult)
        ensures
            value_result(r) == compare_spec(op, self@, other@),
    {
        match (self, other) {
            (Datatype::Number(a), Datatype::Number(b)) => Ok(Datatype::Bool(match op {
                Comparison::GreaterThan => *a > *b,
                Comparison::LessThan => *a < *b,
                Comparison::GreaterThanOrEqual => *a >= *b,
                Comparison::LessThanOrEqual => *a <= *b,
            })),
            _ => Err(LangError::UnsupportedArithimaticOperation),
        }
    }

    /// `>` on two numbers.
    pub fn greater_than(&self, other: &Datatype) -> (r: LangResult)
        ensures
            value_result(r) == compare_spec(Comparison::GreaterThan, self@, other@),
    {
        self.compare(other, Comparison::GreaterThan)
    }

    /// `<` on two numbers.
    pub fn less_than(&self, other: &Datatype) -> (r: LangResult)
        ensures
            value_result(r) == compare_spec(Comparison::LessThan, self@, other@),
    {
        self.compare(other, Comparison::LessThan)
    }

    /// `>=` on two numbers.
    pub fn greater_than_or_equal(&self, other: &Datatype) -> (r: LangResult)
        ensures
            value_result(r) == compare_spec(Comparison::GreaterThanOrEqual, self@, other@),
    {
        self.compare(other, Comparison::GreaterThanOrEqual)
    }

    /// `<=` on two numbers.
    pub fn less_than_or_equal(&self, other: &Datatype) -> (r: LangResult)
        ensures
            value_result(r) == compare_spec(Comparison::LessThanOrEqual, self@, other@),
    {
        self.compare(other, Comparison::LessThanOrEqual)
    }

    /// `++`: a number plus one.
    pub fn increment(&self) -> (r: LangResult)
        ensures
            value_result(r) == increment_spec(self@),
    {
        match self {
            Datatype::Number(a) => checked_number(*a as i64 + 1),
            _ => Err(LangError::IncrementNonNumber),
        }
    }

    /// `--`: a number minus one.
    pub fn decrement(&self) -> (r: LangResult)
        ensures
            value_result(r) == decrement_spec(self@),
    {
        match self {
            Datatype::Number(a) => checked_number(*a as i64 - 1),
            _ => Err(LangError::DecrementNonNumber),
        }
    }

    /// `!`: the negation of a boolean.
    pub fn invert(&self) -> (r: LangResult)
        ensures
            value_result(r) == invert_spec(self@),
    {
        match self {
            Datatype::Bool(b) => Ok(Datatype::Bool(!*b)),
            _ => Err(LangError::InvertNonBoolean),
        }
    }

    /// Unary minus: the opposite of a number.
    pub fn negate(&self) -> (r: LangResult)
        ensures
            value_result(r) == negate_spec(self@),
    {
        match self {
            Datatype::Number(a) => checked_number(-(*a as i64)),
            _ => Err(LangError::NegateNotNumber),
        }
    }
}

} // verus!
