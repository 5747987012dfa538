//! Operations: what a job does to its context after a response.

use vstd::prelude::*;
use vstd::arithmetic::power::{lemma_pow0, lemma_pow_increases};
use crate::adapters::csv::{csv_record, encode_record};
use crate::adapters::number::{fraction_of_text, fraction_text, fraction_to_text, parse_fraction};
use crate::app::context::{has_markup, unrenderable, Context};
use crate::app::error::{Error, ErrorModel};
use crate::app::value::{
    kind_name_of, lemma_array_view, lemma_object_view, lookup, put, texts, CaptureValue, Object,
    ObjectModel, Scalar, ValueModel,
};
use crate::number::{fraction_as_whole, whole_of_fraction};
use crate::text::{int_text, integer_of_text, integer_text, parse_integer};

verus! {

/// What is done after a response: a variable is changed by arithmetic with
/// an operand, a variable is appended to a file of comma-separated values,
/// or a line is rendered for the console.
#[derive(Debug, Clone, PartialEq, Eq)]
pub enum Operation {
    Add(String, CaptureValue),
    Sub(String, CaptureValue),
    Mul(String, CaptureValue),
    Div(String, CaptureValue),
    Mod(String, CaptureValue),
    Pow(String, CaptureValue),
    PushCsv(String, String),
    Console(String),
}

/// What is left to do outside once an operation has been performed.
#[derive(Debug, PartialEq, Eq)]
pub enum Effect {
    /// Nothing.
    Nothing,
    /// Nothing: the variable of this name was set to the fractional number
    /// of this bit pattern, which the step for fractional numbers gave.
    Computed { variable: String, bits: u64 },
    /// Emit this line.
    Line(String),
    /// Append to the file at this path, creating it if needed: the first
    /// bytes where the file is not there yet, the second where it is.
    Append { path: String, fresh: Vec<u8>, existing: Vec<u8> },
}

/// A kind of arithmetic on two numbers.
#[derive(Debug, Clone, Copy, PartialEq, Eq, Structural)]
pub enum Arithmetic {
    Add,
    Sub,
    Mul,
    Div,
    Mod,
    Pow,
}

/// A number as arithmetic takes it: a whole number, or a fractional number
/// as its bit pattern.
#[derive(Debug, Clone, Copy, PartialEq, Eq, Structural)]
pub enum Number {
    Whole(i64),
    Fraction(u64),
}

/// The mathematical content of a [`Number`].
pub enum NumberModel {
    Whole(int),
    Fraction(u64),
}

impl View for Number {
    type V = NumberModel;

    open spec fn view(&self) -> NumberModel {
        match self {
            Number::Whole(i) => NumberModel::Whole(*i as int),
            Number::Fraction(bits) => NumberModel::Fraction(*bits),
        }
    }
}

/// What arithmetic comes to before any fractional number is computed: a
/// whole number, a step on fractional numbers that is still to be done, or
/// an error.
pub enum Decision {
    Exact(int),
    Float,
    Fail(ErrorModel),
}

/// What can be performed on a context. Arithmetic that leaves the whole
/// numbers is handed to `step` with its kind and its two operands; what
/// `step` gives back is taken for the bit pattern of the result.
pub trait Performable {
    fn perform<F: Fn(Arithmetic, Number, Number) -> u64>(&self, ctx: &mut Context, step: &F) -> Result<
        Effect,
        Error,
    >
        requires
            forall|kind: Arithmetic, first: Number, second: Number| call_requires(step, (kind, first, second)),
    ;
}

/// The message of the error for a power with a fractional operand.
pub open spec fn fractional_power() -> Seq<char> {
    "Power with a fractional operand"@
}

/// The message of the error for a result beyond 64 bits.
pub open spec fn overflow() -> Seq<char> {
    "Result does not fit in 64 bits"@
}

/// The message of the error for a division by zero.
pub open spec fn division_by_zero() -> Seq<char> {
    "Division by zero"@
}

/// The message of the error for a power with a negative operand.
pub open spec fn negative_power() -> Seq<char> {
    "Power with a negative operand"@
}

/// The message of the error for a variable that is not set.
pub open spec fn value_not_found() -> Seq<char> {
    "Value not found"@
}

/// The message of the error for a record that could not be written.
pub open spec fn record_failed() -> Seq<char> {
    "Record could not be written"@
}

/// The number that a fractional number stands for in arithmetic: the whole
/// number that it is, where it has no fractional part and fits in 64 bits
/// with a sign, and else itself.
pub open spec fn number_of_fraction(bits: u64) -> NumberModel {
    match whole_of_fraction(bits) {
        Some(i) if i64::MIN <= i <= i64::MAX => NumberModel::Whole(i),
        _ => NumberModel::Fraction(bits),
    }
}

/// The number that a value stands for in arithmetic. A whole number stands
/// for itself, and so does a string that writes one that fits in 64 bits
/// with a sign; a fractional number, and any other string that writes a
/// number, stands for what that fractional number stands for. Every other
/// value gives `IncorrectValueType` with the name of its kind.
pub open spec fn number_of(value: ValueModel) -> Result<NumberModel, ErrorModel> {
    match value {
        ValueModel::Integer(i) => Ok(NumberModel::Whole(i)),
        ValueModel::Str(s) => match integer_of_text(s) {
            Some(i) if i64::MIN <= i <= i64::MAX => Ok(NumberModel::Whole(i)),
            _ => match fraction_of_text(s) {
                Some(bits) => Ok(number_of_fraction(bits)),
                None => Err(ErrorModel::IncorrectValueType(kind_name_of(value))),
            },
        },
        ValueModel::Float(bits) => Ok(number_of_fraction(bits)),
        _ => Err(ErrorModel::IncorrectValueType(kind_name_of(value))),
    }
}

/// The magnitude of a whole number.
pub open spec fn magnitude_of(x: int) -> int {
    if x < 0 {
        -x
    } else {
        x
    }
}

/// The quotient of two whole numbers, rounded towards zero.
pub open spec fn quotient(x: int, y: int) -> int
    recommends
        y != 0,
{
    if x >= 0 && y > 0 {
        x / y
    } else if x >= 0 {
        -(x / (-y))
    } else if y > 0 {
        -((-x) / y)
    } else {
        (-x) / (-y)
    }
}

/// A result, where it fits in 64 bits with a sign.
pub open spec fn fitting(result: int) -> Result<int, ErrorModel> {
    if i64::MIN <= result <= i64::MAX {
        Ok(result)
    } else {
        Err(ErrorModel::Internal(overflow()))
    }
}

/// What arithmetic on two whole numbers gives: the sum, the difference, the
/// product, the quotient rounded towards zero, the remainder that goes with
/// it, or the power. A division by zero, a power with a negative operand and
/// a result beyond 64 bits give `Internal`.
pub open spec fn computed(kind: Arithmetic, x: int, y: int) -> Result<int, ErrorModel> {
    match kind {
        Arithmetic::Add => fitting(x + y),
        Arithmetic::Sub => fitting(x - y),
        Arithmetic::Mul => fitting(x * y),
        Arithmetic::Div => if y == 0 {
            Err(ErrorModel::Internal(division_by_zero()))
        } else {
            fitting(quotient(x, y))
        },
        Arithmetic::Mod => if y == 0 {
            Err(ErrorModel::Internal(division_by_zero()))
        } else {
            fitting(x - y * quotient(x, y))
        },
        Arithmetic::Pow => if x < 0 || y < 0 {
            Err(ErrorModel::Internal(negative_power()))
        } else {
            fitting(vstd::arithmetic::power::pow(x, y as nat))
        },
    }
}

/// What arithmetic on two numbers comes to.
///
/// On whole numbers a sum, a difference or a product is exact where it
/// fits in 64 bits with a sign, and a quotient where, besides, the divisor
/// divides the dividend; where not, the step is one on fractional numbers.
/// A remainder and a power of whole numbers are exact. With a fractional
/// operand every step but a power is one on fractional numbers. A division
/// by zero, a power with a negative or fractional operand and a power
/// beyond 64 bits give `Internal`.
pub open spec fn decided(kind: Arithmetic, x: NumberModel, y: NumberModel) -> Decision {
    match (x, y) {
        (NumberModel::Whole(a), NumberModel::Whole(b)) => match kind {
            Arithmetic::Div => if b == 0 {
                Decision::Fail(ErrorModel::Internal(division_by_zero()))
            } else if magnitude_of(a) % magnitude_of(b) == 0 && i64::MIN <= quotient(a, b) <= i64::MAX {
                Decision::Exact(quotient(a, b))
            } else {
                Decision::Float
            },
            Arithmetic::Mod | Arithmetic::Pow => match computed(kind, a, b) {
                Ok(result) => Decision::Exact(result),
                Err(e) => Decision::Fail(e),
            },
            _ => match computed(kind, a, b) {
                Ok(result) => Decision::Exact(result),
                Err(_) => Decision::Float,
            },
        },
        _ => match kind {
            Arithmetic::Pow => Decision::Fail(ErrorModel::Internal(fractional_power())),
            Arithmetic::Div | Arithmetic::Mod => if y == NumberModel::Whole(0) {
                Decision::Fail(ErrorModel::Internal(division_by_zero()))
            } else {
                Decision::Float
            },
            _ => Decision::Float,
        },
    }
}

/// What arithmetic on two values comes to: the error of the first operand
/// that stands for no number, or else what arithmetic on the two numbers
/// comes to.
pub open spec fn arithmetic(kind: Arithmetic, first: ValueModel, second: ValueModel) -> Decision {
    match number_of(first) {
        Err(e) => Decision::Fail(e),
        Ok(x) => match number_of(second) {
            Err(e) => Decision::Fail(e),
            Ok(y) => decided(kind, x, y),
        },
    }
}

/// Whether a result is what arithmetic came to: the whole number, some
/// fractional number, or the error.
pub open spec fn meets(result: Result<CaptureValue, Error>, decision: Decision) -> bool {
    match decision {
        Decision::Exact(i) => result matches Ok(value) && value@ == ValueModel::Integer(i),
        Decision::Float => result matches Ok(value) && value@ is Float,
        Decision::Fail(e) => result matches Err(error) && error@ == e,
    }
}

/// The number that a fractional number stands for in arithmetic.
pub fn fraction_number(bits: u64) -> (r: Number)
    ensures
        r@ == number_of_fraction(bits),
{
    match fraction_as_whole(bits) {
        Some(i) => Number::Whole(i),
        None => Number::Fraction(bits),
    }
}

/// The number that a value stands for in arithmetic.
pub fn unwrap_integer(value: &CaptureValue) -> (r: Result<Number, Error>)
    ensures
        match number_of(value@) {
            Ok(number) => r matches Ok(found) && found@ == number,
            Err(e) => r matches Err(error) && error@ == e,
        },
{
    match value {
        CaptureValue::Scalar(Scalar::Integer(i)) => Ok(Number::Whole(*i)),
        CaptureValue::Scalar(Scalar::Str(s)) => match parse_integer(s.as_str()) {
            Some(i) => Ok(Number::Whole(i)),
            None => match parse_fraction(s.as_str()) {
                Some(bits) => Ok(fraction_number(bits)),
                None => Err(Error::IncorrectValueType(value.kind_name().to_owned())),
            },
        },
        CaptureValue::Scalar(Scalar::Float(bits)) => Ok(fraction_number(*bits)),
        _ => {
            proof {
                match value {
                    CaptureValue::Array(items) => lemma_array_view(*items),
                    CaptureValue::Object(object) => lemma_object_view(*object),
                    _ => {},
                }
            }
            Err(Error::IncorrectValueType(value.kind_name().to_owned()))
        },
    }
}

/// The error for a result beyond 64 bits.
fn overflowed() -> (r: Error)
    ensures
        r@ == ErrorModel::Internal(overflow()),
{
    Error::Internal("Result does not fit in 64 bits".to_owned())
}

/// The magnitude of a whole number.
fn magnitude(x: i64) -> (r: u64)
    ensures
        r == (if x < 0 {
            -(x as int)
        } else {
            x as int
        }),
{
    if x == i64::MIN {
        0x8000_0000_0000_0000
    } else if x < 0 {
        (-x) as u64
    } else {
        x as u64
    }
}

/// A whole number of a sign and a magnitude, where it fits.
fn signed(negative: bool, size: u64) -> (r: Result<i64, Error>)
    ensures
        match fitting(
            if negative {
                -(size as int)
            } else {
                size as int
            },
        ) {
            Ok(i) => r == Ok::<i64, Error>(i as i64),
            Err(e) => r matches Err(error) && error@ == e,
        },
{
    if negative {
        if size <= 0x7fff_ffff_ffff_ffff {
            Ok(-(size as i64))
        } else if size == 0x8000_0000_0000_0000 {
            Ok(i64::MIN)
        } else {
            Err(overflowed())
        }
    } else if size <= 0x7fff_ffff_ffff_ffff {
        Ok(size as i64)
    } else {
        Err(overflowed())
    }
}

/// A power of a natural number, where it fits.
fn power(base: u64, exponent: u64) -> (r: Result<i64, Error>)
    ensures
        match fitting(vstd::arithmetic::power::pow(base as int, exponent as nat)) {
            Ok(i) => r == Ok::<i64, Error>(i as i64),
            Err(e) => r matches Err(error) && error@ == e,
        },
{
    proof {
        lemma_pow0(base as int);
    }
    if exponent == 0 {
        return Ok(1);
    }
    if base <= 1 {
        proof {
            lemma_small_power(base as int, exponent as nat);
        }
        return Ok(base as i64);
    }
    let mut result: u64 = 1;
    let mut done: u64 = 0;
    while done < exponent
        invariant
            done <= exponent,
            base >= 2,
            result == vstd::arithmetic::power::pow(base as int, done as nat),
            1 <= result <= 0x7fff_ffff_ffff_ffff,
        decreases exponent - done,
    {
        proof {
            lemma_power_step(base as int, done as nat);
            lemma_pow_increases(base as nat, (done + 1) as nat, exponent as nat);
        }
        if result > 0x7fff_ffff_ffff_ffff / base {
            assert(result * base > 0x7fff_ffff_ffff_ffff) by (nonlinear_arith)
                requires
                    result > 0x7fff_ffff_ffff_ffffu64 / base,
                    base >= 2,
                    result >= 1,
            ;
            return Err(overflowed());
        }
        assert(result * base <= 0x7fff_ffff_ffff_ffff) by (nonlinear_arith)
            requires
                result <= 0x7fff_ffff_ffff_ffffu64 / base,
                base >= 2,
                result >= 1,
        ;
        assert(result * base >= 1) by (nonlinear_arith)
            requires
                base >= 2,
                result >= 1,
        ;
        result = result * base;
        done = done + 1;
    }
    Ok(result as i64)
}

/// A power is its base times the power of one less.
pub proof fn lemma_power_step(base: int, exponent: nat)
    ensures
        vstd::arithmetic::power::pow(base, exponent + 1) == vstd::arithmetic::power::pow(base, exponent) * base,
{
    reveal(vstd::arithmetic::power::pow);
    assert(vstd::arithmetic::power::pow(base, exponent + 1) == base * vstd::arithmetic::power::pow(base, exponent));
    assert(base * vstd::arithmetic::power::pow(base, exponent) == vstd::arithmetic::power::pow(base, exponent) * base) by (nonlinear_arith);
}

/// Zero and one to a power of at least one are themselves.
pub proof fn lemma_small_power(base: int, exponent: nat)
    requires
        0 <= base <= 1,
        exponent >= 1,
    ensures
        vstd::arithmetic::power::pow(base, exponent) == base,
    decreases exponent,
{
    lemma_power_step(base, (exponent - 1) as nat);
    if exponent > 1 {
        lemma_small_power(base, (exponent - 1) as nat);
        assert(base * base == base) by (nonlinear_arith)
            requires
                0 <= base <= 1,
        ;
    } else {
        lemma_pow0(base);
    }
}

/// Arithmetic on two whole numbers.
pub fn compute(kind: Arithmetic, x: i64, y: i64) -> (r: Result<i64, Error>)
    ensures
        match computed(kind, x as int, y as int) {
            Ok(i) => r == Ok::<i64, Error>(i as i64),
            Err(e) => r matches Err(error) && error@ == e,
        },
{
    match kind {
        Arithmetic::Add => match x.checked_add(y) {
            Some(sum) => Ok(sum),
            None => Err(overflowed()),
        },
        Arithmetic::Sub => match x.checked_sub(y) {
            Some(difference) => Ok(difference),
            None => Err(overflowed()),
        },
        Arithmetic::Mul => match x.checked_mul(y) {
            Some(product) => Ok(product),
            None => Err(overflowed()),
        },
        Arithmetic::Div => {
            if y == 0 {
                return Err(Error::Internal("Division by zero".to_owned()));
            }
            let size = magnitude(x) / magnitude(y);
            signed((x < 0) != (y < 0), size)
        },
        Arithmetic::Mod => {
            if y == 0 {
                return Err(Error::Internal("Division by zero".to_owned()));
            }
            let size_x = magnitude(x);
            let size_y = magnitude(y);
            let rest = size_x % size_y;
            proof {
                let a = size_x as int;
                let b = size_y as int;
                assert(a == b * (a / b) + a % b) by (nonlinear_arith)
                    requires
                        b > 0,
                ;
                assert(0 <= a % b < b) by (nonlinear_arith)
                    requires
                        b > 0,
                ;
                let q = quotient(x as int, y as int);
                if x >= 0 {
                    assert(y as int * q == b * (a / b)) by (nonlinear_arith)
                        requires
                            q == (if y > 0 { a / b } else { -(a / b) }),
                            b == (if y > 0 { y as int } else { -(y as int) }),
                    ;
                } else {
                    assert(y as int * q == -(b * (a / b))) by (nonlinear_arith)
                        requires
                            q == (if y > 0 { -(a / b) } else { a / b }),
                            b == (if y > 0 { y as int } else { -(y as int) }),
                    ;
                }
            }
            signed(x < 0, rest)
        },
        Arithmetic::Pow => {
            if x < 0 || y < 0 {
                return Err(Error::Internal("Power with a negative operand".to_owned()));
            }
            power(x as u64, y as u64)
        },
    }
}

/// What arithmetic on two numbers comes to: the whole number where it is
/// exact, `None` where the step is one on fractional numbers, or the error.
pub fn decide(kind: Arithmetic, x: Number, y: Number) -> (r: Result<Option<i64>, Error>)
    ensures
        match decided(kind, x@, y@) {
            Decision::Exact(i) => r == Ok::<Option<i64>, Error>(Some(i as i64)),
            Decision::Float => r == Ok::<Option<i64>, Error>(None),
            Decision::Fail(e) => r matches Err(error) && error@ == e,
        },
{
    match (x, y) {
        (Number::Whole(a), Number::Whole(b)) => match kind {
            Arithmetic::Div => {
                if b == 0 {
                    return Err(Error::Internal("Division by zero".to_owned()));
                }
                if magnitude(a) % magnitude(b) != 0 {
                    return Ok(None);
                }
                match compute(kind, a, b) {
                    Ok(result) => Ok(Some(result)),
                    Err(_) => Ok(None),
                }
            },
            Arithmetic::Mod | Arithmetic::Pow => match compute(kind, a, b) {
                Ok(result) => Ok(Some(result)),
                Err(e) => Err(e),
            },
            _ => match compute(kind, a, b) {
                Ok(result) => Ok(Some(result)),
                Err(_) => Ok(None),
            },
        },
        _ => match kind {
            Arithmetic::Pow => Err(Error::Internal("Power with a fractional operand".to_owned())),
            Arithmetic::Div | Arithmetic::Mod => match y {
                Number::Whole(0) => Err(Error::Internal("Division by zero".to_owned())),
                _ => Ok(None),
            },
            _ => Ok(None),
        },
    }
}

/// Arithmetic on two values. Where it leaves the whole numbers, `step` is
/// called with the kind and the two numbers, and what it gives back is the
/// bit pattern of the result.
pub fn calculate<F: Fn(Arithmetic, Number, Number) -> u64>(
    kind: Arithmetic,
    arg1: &CaptureValue,
    arg2: &CaptureValue,
    step: &F,
) -> (r: Result<CaptureValue, Error>)
    requires
        forall|kind: Arithmetic, first: Number, second: Number| call_requires(step, (kind, first, second)),
    ensures
        meets(r, arithmetic(kind, arg1@, arg2@)),
{
    let x = match unwrap_integer(arg1) {
        Ok(x) => x,
        Err(e) => {
            return Err(e);
        },
    };
    let y = match unwrap_integer(arg2) {
        Ok(y) => y,
        Err(e) => {
            return Err(e);
        },
    };
    match decide(kind, x, y) {
        Ok(Some(result)) => Ok(CaptureValue::Scalar(Scalar::Integer(result))),
        Ok(None) => Ok(CaptureValue::Scalar(Scalar::Float(step(kind, x, y)))),
        Err(e) => Err(e),
    }
}

/// The sum of two values.
pub fn sum<F: Fn(Arithmetic, Number, Number) -> u64>(arg1: CaptureValue, arg2: CaptureValue, step: &F) -> (r:
    Result<CaptureValue, Error>)
    requires
        forall|kind: Arithmetic, first: Number, second: Number| call_requires(step, (kind, first, second)),
    ensures
        meets(r, arithmetic(Arithmetic::Add, arg1@, arg2@)),
{
    calculate(Arithmetic::Add, &arg1, &arg2, step)
}

/// The difference of two values.
pub fn sub<F: Fn(Arithmetic, Number, Number) -> u64>(arg1: CaptureValue, arg2: CaptureValue, step: &F) -> (r:
    Result<CaptureValue, Error>)
    requires
        forall|kind: Arithmetic, first: Number, second: Number| call_requires(step, (kind, first, second)),
    ensures
        meets(r, arithmetic(Arithmetic::Sub, arg1@, arg2@)),
{
    calculate(Arithmetic::Sub, &arg1, &arg2, step)
}

/// The product of two values.
pub fn mul<F: Fn(Arithmetic, Number, Number) -> u64>(arg1: CaptureValue, arg2: CaptureValue, step: &F) -> (r:
    Result<CaptureValue, Error>)
    requires
        forall|kind: Arithmetic, first: Number, second: Number| call_requires(step, (kind, first, second)),
    ensures
        meets(r, arithmetic(Arithmetic::Mul, arg1@, arg2@)),
{
    calculate(Arithmetic::Mul, &arg1, &arg2, step)
}

/// The quotient of two values.
pub fn div<F: Fn(Arithmetic, Number, Number) -> u64>(arg1: CaptureValue, arg2: CaptureValue, step: &F) -> (r:
    Result<CaptureValue, Error>)
    requires
        forall|kind: Arithmetic, first: Number, second: Number| call_requires(step, (kind, first, second)),
    ensures
        meets(r, arithmetic(Arithmetic::Div, arg1@, arg2@)),
{
    calculate(Arithmetic::Div, &arg1, &arg2, step)
}

/// The remainder of the division of two values.
pub fn module<F: Fn(Arithmetic, Number, Number) -> u64>(arg1: CaptureValue, arg2: CaptureValue, step: &F) -> (r:
    Result<CaptureValue, Error>)
    requires
        forall|kind: Arithmetic, first: Number, second: Number| call_requires(step, (kind, first, second)),
    ensures
        meets(r, arithmetic(Arithmetic::Mod, arg1@, arg2@)),
{
    calculate(Arithmetic::Mod, &arg1, &arg2, step)
}

/// The first value to the power of the second.
pub fn pow(arg1: CaptureValue, arg2: CaptureValue) -> (r: Result<CaptureValue, Error>)
    ensures
        meets(r, arithmetic(Arithmetic::Pow, arg1@, arg2@)),
{
    let x = match unwrap_integer(&arg1) {
        Ok(x) => x,
        Err(e) => {
            return Err(e);
        },
    };
    let y = match unwrap_integer(&arg2) {
        Ok(y) => y,
        Err(e) => {
            return Err(e);
        },
    };
    match decide(Arithmetic::Pow, x, y) {
        Ok(Some(result)) => Ok(CaptureValue::Scalar(Scalar::Integer(result))),
        Ok(None) => Err(Error::Internal("Power with a fractional operand".to_owned())),
        Err(e) => Err(e),
    }
}

/// The line that goes to the console.
pub fn console(text: &str) -> (r: Result<String, Error>)
    ensures
        r matches Ok(line) && line@ == text@,
{
    Ok(text.to_owned())
}

/// The text of a scalar as a cell of a table: a string as it is, a number
/// as it is written, a boolean as `true` or `false`. A value that is no
/// scalar has none.
pub open spec fn cell_text(value: ValueModel) -> Option<Seq<char>> {
    match value {
        ValueModel::Str(s) => Some(s),
        ValueModel::Integer(i) => Some(int_text(i)),
        ValueModel::Float(bits) => Some(fraction_text(bits)),
        ValueModel::Bool(b) => Some(
            if b {
                "true"@
            } else {
                "false"@
            },
        ),
        _ => None,
    }
}

/// The cells of a sequence of scalars, or `IncorrectValueType` with the name
/// of the kind of the first value that is no scalar.
pub open spec fn cells_of(values: Seq<ValueModel>) -> Result<Seq<Seq<char>>, ErrorModel>
    decreases values.len(),
{
    if values.len() == 0 {
        Ok(Seq::empty())
    } else {
        match cells_of(values.drop_last()) {
            Err(e) => Err(e),
            Ok(front) => match cell_text(values.last()) {
                Some(cell) => Ok(front.push(cell)),
                None => Err(ErrorModel::IncorrectValueType(kind_name_of(values.last()))),
            },
        }
    }
}

/// The names of the entries of an object, in order.
pub open spec fn keys_of(entries: ObjectModel) -> Seq<Seq<char>> {
    Seq::new(entries.len(), |i: int| entries[i].0)
}

/// The values of the entries of an object, in order.
pub open spec fn values_of_entries(entries: ObjectModel) -> Seq<ValueModel> {
    Seq::new(entries.len(), |i: int| entries[i].1)
}

/// Each cell as a row of its own.
pub open spec fn single_rows(cells: Seq<Seq<char>>) -> Seq<Seq<Seq<char>>> {
    Seq::new(cells.len(), |i: int| seq![cells[i]])
}

/// The rows that a value is appended as, after a header row where the file
/// is new. A scalar is one row of one cell under `header`; an array is one
/// row of one cell for each item, under `header`; an object is one row of
/// its values under its names; nothing gives no row at all.
pub open spec fn csv_rows(header: Seq<char>, value: ValueModel, exists: bool) -> Result<
    Seq<Seq<Seq<char>>>,
    ErrorModel,
> {
    let top: Seq<Seq<Seq<char>>> = if exists {
        Seq::empty()
    } else {
        seq![seq![header]]
    };
    match value {
        ValueModel::Nil => Ok(Seq::empty()),
        ValueModel::Array(items) => match cells_of(items) {
            Ok(cells) => Ok(top + single_rows(cells)),
            Err(e) => Err(e),
        },
        ValueModel::Object(entries) => match cells_of(values_of_entries(entries)) {
            Ok(cells) => Ok(
                (if exists {
                    Seq::<Seq<Seq<char>>>::empty()
                } else {
                    seq![keys_of(entries)]
                }) + seq![cells],
            ),
            Err(e) => Err(e),
        },
        _ => Ok(top + seq![seq![cell_text(value)->0]]),
    }
}

/// The bytes that rows are written as, one record after another, or
/// `Internal` where a record cannot be written.
pub open spec fn csv_bytes(rows: Seq<Seq<Seq<char>>>) -> Result<Seq<u8>, ErrorModel>
    decreases rows.len(),
{
    if rows.len() == 0 {
        Ok(Seq::empty())
    } else {
        match csv_bytes(rows.drop_last()) {
            Err(e) => Err(e),
            Ok(front) => match csv_record(rows.last()) {
                Some(record) => Ok(front + record),
                None => Err(ErrorModel::Internal(record_failed())),
            },
        }
    }
}

/// The bytes that a value is appended as to a file of comma-separated
/// values.
pub open spec fn csv_data(header: Seq<char>, value: ValueModel, exists: bool) -> Result<
    Seq<u8>,
    ErrorModel,
> {
    match csv_rows(header, value, exists) {
        Ok(rows) => csv_bytes(rows),
        Err(e) => Err(e),
    }
}

/// The text of a scalar as a cell of a table.
pub fn scalar_cell(scalar: &Scalar) -> (r: String)
    ensures
        cell_text(scalar@) == Some(r@),
{
    match scalar {
        Scalar::Str(s) => s.clone(),
        Scalar::Integer(i) => integer_text(*i),
        Scalar::Float(bits) => fraction_to_text(*bits),
        Scalar::Bool(b) => if *b {
            "true".to_owned()
        } else {
            "false".to_owned()
        },
    }
}

/// The text of a value as a cell of a table, or `IncorrectValueType` where
/// the value is no scalar.
fn value_cell(value: &CaptureValue) -> (r: Result<String, Error>)
    ensures
        match cell_text(value@) {
            Some(cell) => r matches Ok(text) && text@ == cell,
            None => r matches Err(e) && e@ == ErrorModel::IncorrectValueType(kind_name_of(value@)),
        },
{
    match value {
        CaptureValue::Scalar(scalar) => Ok(scalar_cell(scalar)),
        _ => {
            proof {
                match value {
                    CaptureValue::Array(items) => lemma_array_view(*items),
                    CaptureValue::Object(object) => lemma_object_view(*object),
                    _ => {},
                }
            }
            Err(Error::IncorrectValueType(value.kind_name().to_owned()))
        },
    }
}

/// The rows of a table as character sequences.
pub open spec fn row_texts(rows: Seq<Vec<String>>) -> Seq<Seq<Seq<char>>> {
    Seq::new(rows.len(), |i: int| texts(rows[i]@))
}

/// The rows that a value is appended as.
pub fn rows_of(header: &str, value: &CaptureValue, exists: bool) -> (r: Result<Vec<Vec<String>>, Error>)
    ensures
        match csv_rows(header@, value@, exists) {
            Ok(rows) => r matches Ok(out) && row_texts(out@) == rows,
            Err(e) => r matches Err(error) && error@ == e,
        },
{
    let mut rows: Vec<Vec<String>> = Vec::new();
    match value {
        CaptureValue::Nil => {
            assert(row_texts(rows@) =~= Seq::empty());
            Ok(rows)
        },
        CaptureValue::Scalar(scalar) => {
            if !exists {
                let mut top: Vec<String> = Vec::new();
                top.push(header.to_owned());
                assert(texts(top@) =~= seq![header@]);
                rows.push(top);
            }
            let mut row: Vec<String> = Vec::new();
            row.push(scalar_cell(scalar));
            assert(texts(row@) =~= seq![cell_text(value@)->0]);
            rows.push(row);
            assert(row_texts(rows@) =~= csv_rows(header@, value@, exists)->Ok_0);
            Ok(rows)
        },
        CaptureValue::Array(items) => {
            proof {
                lemma_array_view(*items);
            }
            let ghost models = crate::app::value::models(items@);
            if !exists {
                let mut top: Vec<String> = Vec::new();
                top.push(header.to_owned());
                assert(texts(top@) =~= seq![header@]);
                rows.push(top);
            }
            let ghost top_rows = row_texts(rows@);
            assert(top_rows =~= (if exists {
                Seq::<Seq<Seq<char>>>::empty()
            } else {
                seq![seq![header@]]
            }));
            let mut i: usize = 0;
            assert(models.take(0) =~= Seq::empty());
            while i < items.len()
                invariant
                    i <= items.len(),
                    models == crate::app::value::models(items@),
                    value@ == ValueModel::Array(models),
                    cells_of(models.take(i as int)) is Ok,
                    row_texts(rows@) == top_rows + single_rows(cells_of(models.take(i as int))->Ok_0),
                decreases items.len() - i,
            {
                proof {
                    assert(models.take(i + 1).drop_last() =~= models.take(i as int));
                    assert(models.take(i + 1).last() == items@[i as int]@);
                    lemma_cells_fail(models, i + 1);
                }
                let cell = match value_cell(&items[i]) {
                    Ok(cell) => cell,
                    Err(e) => {
                        assert(models.take(models.len() as int) =~= models);
                        return Err(e);
                    },
                };
                let ghost before = row_texts(rows@);
                let mut row: Vec<String> = Vec::new();
                row.push(cell);
                assert(texts(row@) =~= seq![cell@]);
                rows.push(row);
                assert(row_texts(rows@) =~= before.push(seq![cell@]));
                assert(row_texts(rows@) =~= top_rows + single_rows(
                    cells_of(models.take(i + 1))->Ok_0,
                ));
                i += 1;
            }
            assert(models.take(models.len() as int) =~= models);
            Ok(rows)
        },
        CaptureValue::Object(object) => {
            proof {
                lemma_object_view(*object);
            }
            let ghost values = values_of_entries(object@);
            let mut keys: Vec<String> = Vec::new();
            let mut cells: Vec<String> = Vec::new();
            let entries = object.entries();
            let mut i: usize = 0;
            assert(values.take(0) =~= Seq::empty());
            while i < entries.len()
                invariant
                    i <= entries.len(),
                    entries@ == object.pairs(),
                    values == values_of_entries(object@),
                    value@ == ValueModel::Object(object@),
                    cells_of(values.take(i as int)) is Ok,
                    texts(cells@) == cells_of(values.take(i as int))->Ok_0,
                    texts(keys@) == keys_of(object@).take(i as int),
                decreases entries.len() - i,
            {
                proof {
                    assert(values.take(i + 1).drop_last() =~= values.take(i as int));
                    assert(values.take(i + 1).last() == entries@[i as int].1@);
                    lemma_cells_fail(values, i + 1);
                }
                let cell = match value_cell(&entries[i].1) {
                    Ok(cell) => cell,
                    Err(e) => {
                        assert(values.take(values.len() as int) =~= values);
                        return Err(e);
                    },
                };
                let ghost cells_before = texts(cells@);
                let ghost keys_before = texts(keys@);
                cells.push(cell);
                keys.push(entries[i].0.clone());
                assert(texts(cells@) =~= cells_before.push(cell@));
                assert(texts(keys@) =~= keys_before.push(entries@[i as int].0@));
                assert(texts(keys@) =~= keys_of(object@).take(i + 1));
                i += 1;
            }
            assert(values.take(values.len() as int) =~= values);
            assert(keys_of(object@).take(object@.len() as int) =~= keys_of(object@));
            if !exists {
                rows.push(keys);
            }
            rows.push(cells);
            assert(row_texts(rows@) =~= csv_rows(header@, value@, exists)->Ok_0);
            Ok(rows)
        },
    }
}

/// Where the first values of a sequence hold one that is no scalar, the
/// whole sequence gives the same error.
pub proof fn lemma_cells_fail(values: Seq<ValueModel>, n: int)
    requires
        0 <= n <= values.len(),
    ensures
        cells_of(values.take(n)) is Err ==> cells_of(values) == cells_of(values.take(n)),
    decreases values.len() - n,
{
    if n < values.len() {
        lemma_cells_fail(values, n + 1);
        assert(values.take(n + 1).drop_last() =~= values.take(n));
    } else {
        assert(values.take(n) =~= values);
    }
}

/// The bytes that rows are written as, one record after another.
pub fn encode_rows(rows: &Vec<Vec<String>>) -> (r: Result<Vec<u8>, Error>)
    ensures
        match csv_bytes(row_texts(rows@)) {
            Ok(bytes) => r matches Ok(out) && out@ == bytes,
            Err(e) => r matches Err(error) && error@ == e,
        },
{
    let ghost all = row_texts(rows@);
    let mut out: Vec<u8> = Vec::new();
    let mut i: usize = 0;
    assert(all.take(0) =~= Seq::empty());
    while i < rows.len()
        invariant
            i <= rows.len(),
            all == row_texts(rows@),
            csv_bytes(all.take(i as int)) == Ok::<Seq<u8>, ErrorModel>(out@),
        decreases rows.len() - i,
    {
        proof {
            assert(all.take(i + 1).drop_last() =~= all.take(i as int));
            assert(all.take(i + 1).last() == texts(rows@[i as int]@));
            lemma_bytes_fail(all, i + 1);
        }
        match encode_record(&rows[i]) {
            Some(mut record) => {
                out.append(&mut record);
            },
            None => {
                assert(all.take(all.len() as int) =~= all);
                return Err(Error::Internal("Record could not be written".to_owned()));
            },
        }
        i += 1;
    }
    assert(all.take(all.len() as int) =~= all);
    Ok(out)
}

/// Where the first rows hold one that cannot be written, all rows give the
/// same error.
pub proof fn lemma_bytes_fail(rows: Seq<Seq<Seq<char>>>, n: int)
    requires
        0 <= n <= rows.len(),
    ensures
        csv_bytes(rows.take(n)) is Err ==> csv_bytes(rows) == csv_bytes(rows.take(n)),
    decreases rows.len() - n,
{
    if n < rows.len() {
        lemma_bytes_fail(rows, n + 1);
        assert(rows.take(n + 1).drop_last() =~= rows.take(n));
    } else {
        assert(rows.take(n) =~= rows);
    }
}

/// The bytes to append to a file of comma-separated values for a value:
/// its rows, after a header row where the file does not exist yet.
pub fn push_csv(header: &str, value: &CaptureValue, exists: bool) -> (r: Result<Vec<u8>, Error>)
    ensures
        match csv_data(header@, value@, exists) {
            Ok(bytes) => r matches Ok(out) && out@ == bytes,
            Err(e) => r matches Err(error) && error@ == e,
        },
{
    match rows_of(header, value, exists) {
        Ok(rows) => encode_rows(&rows),
        Err(e) => Err(e),
    }
}

impl Operation {
    /// Whether the operation is a console line with markup, of which the
    /// template engine says what it renders to.
    pub open spec fn needs_engine(self) -> bool {
        self matches Operation::Console(template) && has_markup(template@)
    }

    /// Whether performing the operation is sure to fail with `Syntax`: it
    /// is a console line whose rendering is sure to fail.
    pub open spec fn unrenderable(self, standard: bool) -> bool {
        self matches Operation::Console(template) && unrenderable(template@, standard)
    }

    /// The kind of arithmetic, the variable and the operand of an operation
    /// that is arithmetic.
    pub open spec fn as_arithmetic(self) -> Option<(Arithmetic, Seq<char>, ValueModel)> {
        match self {
            Operation::Add(variable, operand) => Some((Arithmetic::Add, variable@, operand@)),
            Operation::Sub(variable, operand) => Some((Arithmetic::Sub, variable@, operand@)),
            Operation::Mul(variable, operand) => Some((Arithmetic::Mul, variable@, operand@)),
            Operation::Div(variable, operand) => Some((Arithmetic::Div, variable@, operand@)),
            Operation::Mod(variable, operand) => Some((Arithmetic::Mod, variable@, operand@)),
            Operation::Pow(variable, operand) => Some((Arithmetic::Pow, variable@, operand@)),
            _ => None,
        }
    }
}

/// Whether a result is what an operation gives on variables: arithmetic
/// gives nothing to do, with the variable's name and the number where the
/// step was one on fractional numbers, or its error; an append gives the
/// path and both
/// forms of the bytes, or its error; a console line gives a line, which is
/// the operation's text where that holds no markup. A variable that is not
/// set gives `ValueNotFound`.
#[verifier::opaque]
pub open spec fn performed(vars: ObjectModel, operation: Operation, result: Result<Effect, Error>) -> bool {
    match operation {
        Operation::PushCsv(variable, path) => match lookup(vars, variable@) {
            None => result matches Err(e) && e@ == ErrorModel::ValueNotFound(value_not_found()),
            Some(current) => match (
                csv_data(variable@, current, false),
                csv_data(variable@, current, true),
            ) {
                (Ok(with_header), Ok(without)) => result matches Ok(
                    Effect::Append { path: target, fresh, existing },
                ) && target@ == path@ && fresh@ == with_header && existing@ == without,
                (Err(error), _) => result matches Err(e) && e@ == error,
                (_, Err(error)) => result matches Err(e) && e@ == error,
            },
        },
        Operation::Console(template) => result matches Ok(Effect::Line(line)) && (!has_markup(template@)
            ==> line@ == template@),
        _ => match operation.as_arithmetic() {
            Some((kind, variable, operand)) => match lookup(vars, variable) {
                None => result matches Err(e) && e@ == ErrorModel::ValueNotFound(value_not_found()),
                Some(current) => match arithmetic(kind, current, operand) {
                    Decision::Exact(_) => result == Ok::<Effect, Error>(Effect::Nothing),
                    Decision::Float => result matches Ok(Effect::Computed { variable: name, bits })
                        && name@ == variable,
                    Decision::Fail(error) => result matches Err(e) && e@ == error,
                },
            },
            None => true,
        },
    }
}

/// The variables after an operation that gave a result: arithmetic that
/// succeeds sets its variable, to the whole number where it is exact and
/// else to the fractional number that the result names, and nothing else
/// changes them.
#[verifier::opaque]
pub open spec fn after_operation(
    vars: ObjectModel,
    operation: Operation,
    result: Result<Effect, Error>,
) -> ObjectModel {
    match operation.as_arithmetic() {
        Some((kind, variable, operand)) => match lookup(vars, variable) {
            Some(current) => match arithmetic(kind, current, operand) {
                Decision::Exact(i) => put(vars, variable, ValueModel::Integer(i)),
                Decision::Float => match result {
                    Ok(Effect::Computed { bits, .. }) => put(vars, variable, ValueModel::Float(bits)),
                    _ => vars,
                },
                Decision::Fail(_) => vars,
            },
            None => vars,
        },
        None => vars,
    }
}

/// The variables after operations were performed one after another and
/// gave these results.
pub open spec fn after_operations(
    vars: ObjectModel,
    operations: Seq<Operation>,
    results: Seq<Result<Effect, Error>>,
) -> ObjectModel
    decreases operations.len(),
{
    if operations.len() == 0 || results.len() == 0 {
        vars
    } else {
        after_operation(
            after_operations(vars, operations.drop_last(), results.drop_last()),
            operations.last(),
            results.last(),
        )
    }
}

/// Arithmetic fails with `Internal` or `IncorrectValueType` alone.
pub proof fn lemma_arithmetic_errors(kind: Arithmetic, first: ValueModel, second: ValueModel)
    ensures
        arithmetic(kind, first, second) matches Decision::Fail(e) ==> e is Internal || e is IncorrectValueType,
{
}

/// The bytes of an append fail with `Internal` or `IncorrectValueType`
/// alone.
pub proof fn lemma_csv_errors(header: Seq<char>, value: ValueModel, exists: bool)
    ensures
        csv_data(header, value, exists) matches Err(e) ==> e is Internal || e is IncorrectValueType,
{
    match csv_rows(header, value, exists) {
        Ok(rows) => {
            lemma_bytes_errors(rows);
        },
        Err(_) => {
            match value {
                ValueModel::Array(items) => lemma_cells_errors(items),
                ValueModel::Object(entries) => lemma_cells_errors(values_of_entries(entries)),
                _ => {},
            }
        },
    }
}

/// Cells fail with `IncorrectValueType` alone.
pub proof fn lemma_cells_errors(values: Seq<ValueModel>)
    ensures
        cells_of(values) matches Err(e) ==> e is IncorrectValueType,
    decreases values.len(),
{
    if values.len() > 0 {
        lemma_cells_errors(values.drop_last());
    }
}

/// Records fail with `Internal` alone.
pub proof fn lemma_bytes_errors(rows: Seq<Seq<Seq<char>>>)
    ensures
        csv_bytes(rows) matches Err(e) ==> e is Internal,
    decreases rows.len(),
{
    if rows.len() > 0 {
        lemma_bytes_errors(rows.drop_last());
    }
}

/// Performs arithmetic on a variable of a context and an operand, and sets
/// the variable to the result.
fn perform_arithmetic<F: Fn(Arithmetic, Number, Number) -> u64>(
    kind: Arithmetic,
    variable: &String,
    operand: &CaptureValue,
    ctx: &mut Context,
    step: &F,
) -> (r: Result<Effect, Error>)
    requires
        forall|kind: Arithmetic, first: Number, second: Number| call_requires(step, (kind, first, second)),
    ensures
        final(ctx).tables() == old(ctx).tables(),
        final(ctx).standard() == old(ctx).standard(),
        match lookup(old(ctx).vars(), variable@) {
            None => r matches Err(e) && e@ == ErrorModel::ValueNotFound(value_not_found())
                && final(ctx).vars() == old(ctx).vars(),
            Some(current) => match arithmetic(kind, current, operand@) {
                Decision::Exact(i) => r == Ok::<Effect, Error>(Effect::Nothing) && final(ctx).vars() == put(
                    old(ctx).vars(),
                    variable@,
                    ValueModel::Integer(i),
                ),
                Decision::Float => r matches Ok(Effect::Computed { variable: name, bits }) && name@
                    == variable@ && final(ctx).vars() == put(
                    old(ctx).vars(),
                    variable@,
                    ValueModel::Float(bits),
                ),
                Decision::Fail(error) => r matches Err(e) && e@ == error && final(ctx).vars() == old(
                    ctx,
                ).vars(),
            },
        },
{
    let result = match ctx.variables().get(variable.as_str()) {
        None => {
            return Err(Error::ValueNotFound("Value not found".to_owned()));
        },
        Some(current) => calculate(kind, current, operand, step),
    };
    match result {
        Ok(CaptureValue::Scalar(Scalar::Float(bits))) => {
            ctx.set(variable.clone(), CaptureValue::Scalar(Scalar::Float(bits)));
            Ok(Effect::Computed { variable: variable.clone(), bits })
        },
        Ok(value) => {
            ctx.set(variable.clone(), value);
            Ok(Effect::Nothing)
        },
        Err(e) => Err(e),
    }
}

impl Performable for Operation {
    /// Performs the operation on a context.
    ///
    /// Arithmetic sets its variable to the result; where it leaves the whole
    /// numbers, the result is what `step` gives. An append gives the path
    /// and the bytes to append, with a header row for a file that is not
    /// there yet and without one for a file that is. A console line gives
    /// the rendered line, or `Syntax` where the template engine reports an
    /// error. A variable that is not set gives `ValueNotFound`. Only
    /// arithmetic that succeeds changes the context.
    fn perform<F: Fn(Arithmetic, Number, Number) -> u64>(&self, ctx: &mut Context, step: &F) -> (r: Result<
        Effect,
        Error,
    >)
        ensures
            final(ctx).tables() == old(ctx).tables(),
            final(ctx).standard() == old(ctx).standard(),
            final(ctx).vars() == after_operation(old(ctx).vars(), *self, r),
            performed(old(ctx).vars(), *self, r) || (*self is Console && r matches Err(Error::Syntax(_))),
            self.unrenderable(old(ctx).standard()) ==> r matches Err(Error::Syntax(_)),
            r matches Err(Error::Syntax(_)) ==> self.needs_engine(),
    {
        proof {
            reveal(performed);
            reveal(after_operation);
            match self.as_arithmetic() {
                Some((kind, variable, operand)) => {
                    match lookup(ctx.vars(), variable) {
                        Some(current) => lemma_arithmetic_errors(kind, current, operand),
                        None => {},
                    }
                },
                None => {},
            }
            match self {
                Operation::PushCsv(variable, _) => {
                    match lookup(ctx.vars(), variable@) {
                        Some(current) => {
                            lemma_csv_errors(variable@, current, false);
                            lemma_csv_errors(variable@, current, true);
                        },
                        None => {},
                    }
                },
                _ => {},
            }
        }
        match self {
            Operation::Add(variable, operand) => perform_arithmetic(
                Arithmetic::Add,
                variable,
                operand,
                ctx,
                step,
            ),
            Operation::Sub(variable, operand) => perform_arithmetic(
                Arithmetic::Sub,
                variable,
                operand,
                ctx,
                step,
            ),
            Operation::Mul(variable, operand) => perform_arithmetic(
                Arithmetic::Mul,
                variable,
                operand,
                ctx,
                step,
            ),
            Operation::Div(variable, operand) => perform_arithmetic(
                Arithmetic::Div,
                variable,
                operand,
                ctx,
                step,
            ),
            Operation::Mod(variable, operand) => perform_arithmetic(
                Arithmetic::Mod,
                variable,
                operand,
                ctx,
                step,
            ),
            Operation::Pow(variable, operand) => perform_arithmetic(
                Arithmetic::Pow,
                variable,
                operand,
                ctx,
                step,
            ),
            Operation::PushCsv(variable, path) => {
                match ctx.variables().get(variable.as_str()) {
                    None => Err(Error::ValueNotFound("Value not found".to_owned())),
                    Some(current) => {
                        let fresh = match push_csv(variable.as_str(), current, false) {
                            Ok(fresh) => fresh,
                            Err(e) => {
                                return Err(e);
                            },
                        };
                        match push_csv(variable.as_str(), current, true) {
                            Ok(existing) => Ok(Effect::Append { path: path.clone(), fresh, existing }),
                            Err(e) => Err(e),
                        }
                    },
                }
            },
            Operation::Console(template) => {
                match ctx.apply(template.as_str()) {
                    Ok(text) => match console(text.as_str()) {
                        Ok(line) => Ok(Effect::Line(line)),
                        Err(e) => Err(e),
                    },
                    Err(e) => Err(e),
                }
            },
        }
    }
}

} // verus!
