use pipeline_engine::app::context::ContextPool;
use pipeline_engine::app::error::Error;
use pipeline_engine::app::operation;
use pipeline_engine::app::operation::{
    calculate, compute, console, decide, encode_rows, pow, push_csv, rows_of, scalar_cell, unwrap_integer,
    Arithmetic, Effect, Number, Operation, Performable,
};
use pipeline_engine::app::value::{CaptureValue, Object, Scalar};
use pipeline_engine::number::fraction_as_whole;
use pipeline_engine::text::{contains_part, has_short_numbers, integer_text, parse_integer, same_text};

fn whole(i: i64) -> CaptureValue {
    CaptureValue::integer(i)
}

fn fraction(x: f64) -> CaptureValue {
    CaptureValue::float_bits(x.to_bits())
}

fn as_float(number: Number) -> f64 {
    match number {
        Number::Whole(i) => i as f64,
        Number::Fraction(bits) => f64::from_bits(bits),
    }
}

fn step(kind: Arithmetic, first: Number, second: Number) -> u64 {
    let (x, y) = (as_float(first), as_float(second));
    let result = match kind {
        Arithmetic::Add => x + y,
        Arithmetic::Sub => x - y,
        Arithmetic::Mul => x * y,
        Arithmetic::Div => x / y,
        Arithmetic::Mod => x % y,
        Arithmetic::Pow => x.powf(y),
    };
    result.to_bits()
}

fn sum(first: CaptureValue, second: CaptureValue) -> Result<CaptureValue, Error> {
    operation::sum(first, second, &step)
}

fn sub(first: CaptureValue, second: CaptureValue) -> Result<CaptureValue, Error> {
    operation::sub(first, second, &step)
}

fn mul(first: CaptureValue, second: CaptureValue) -> Result<CaptureValue, Error> {
    operation::mul(first, second, &step)
}

fn div(first: CaptureValue, second: CaptureValue) -> Result<CaptureValue, Error> {
    operation::div(first, second, &step)
}

fn module(first: CaptureValue, second: CaptureValue) -> Result<CaptureValue, Error> {
    operation::module(first, second, &step)
}

fn overflow<T>() -> Result<T, Error> {
    Err(Error::Internal("Result does not fit in 64 bits".to_owned()))
}

#[test]
fn arithmetic_on_whole_numbers() {
    assert_eq!(sum(whole(40), whole(2)), Ok(whole(42)));
    assert_eq!(sub(whole(40), whole(42)), Ok(whole(-2)));
    assert_eq!(mul(whole(-6), whole(7)), Ok(whole(-42)));
    assert_eq!(div(whole(8), whole(2)), Ok(whole(4)));
    assert_eq!(div(whole(-8), whole(2)), Ok(whole(-4)));
    assert_eq!(div(whole(8), whole(-2)), Ok(whole(-4)));
    assert_eq!(div(whole(-8), whole(-2)), Ok(whole(4)));
    assert_eq!(div(whole(0), whole(-2)), Ok(whole(0)));
    assert_eq!(div(whole(i64::MIN), whole(1)), Ok(whole(i64::MIN)));
    assert_eq!(module(whole(7), whole(2)), Ok(whole(1)));
    assert_eq!(module(whole(-7), whole(2)), Ok(whole(-1)));
    assert_eq!(module(whole(7), whole(-2)), Ok(whole(1)));
    assert_eq!(module(whole(-7), whole(-2)), Ok(whole(-1)));
    assert_eq!(pow(whole(2), whole(10)), Ok(whole(1024)));
    assert_eq!(pow(whole(0), whole(0)), Ok(whole(1)));
    assert_eq!(pow(whole(0), whole(5)), Ok(whole(0)));
    assert_eq!(pow(whole(1), whole(i64::MAX)), Ok(whole(1)));
    assert_eq!(pow(whole(7), whole(1)), Ok(whole(7)));
    assert_eq!(pow(whole(2), whole(62)), Ok(whole(1 << 62)));
    assert_eq!(pow(whole(3), whole(39)), Ok(whole(4052555153018976267)));
    assert_eq!(sum(CaptureValue::string("40"), CaptureValue::string("+2")), Ok(whole(42)));
    assert_eq!(sum(CaptureValue::string("-40"), whole(2)), Ok(whole(-38)));
    assert_eq!(sum(fraction(40.0), whole(2)), Ok(whole(42)));
    assert_eq!(mul(fraction(-2.0), fraction(0.0)), Ok(whole(0)));
    assert_eq!(pow(fraction(2.0), fraction(3.0)), Ok(whole(8)));
    assert_eq!(sub(fraction(-0.0), fraction(9007199254740993.0)), Ok(whole(-9007199254740992)));
}

#[test]
fn fractions_count_as_whole_numbers_where_they_are() {
    for (x, expected) in [
        (0.0, Some(0)),
        (-0.0, Some(0)),
        (1.0, Some(1)),
        (-1.0, Some(-1)),
        (2.5, None),
        (0.5, None),
        (-0.75, None),
        (1e-300, None),
        (5e-324, None),
        (3.0, Some(3)),
        (1023.0, Some(1023)),
        (4503599627370496.0, Some(4503599627370496)),
        (4503599627370495.5, None),
        (9007199254740992.0, Some(9007199254740992)),
        (1e15, Some(1_000_000_000_000_000)),
        (1e18, Some(1_000_000_000_000_000_000)),
        (9223372036854774784.0, Some(9223372036854774784)),
        (9223372036854775808.0, None),
        (-9223372036854775808.0, Some(i64::MIN)),
        (-9223372036854777856.0, None),
        (1e19, None),
        (1e300, None),
        (f64::MAX, None),
        (f64::MIN_POSITIVE, None),
        (f64::INFINITY, None),
        (f64::NEG_INFINITY, None),
        (f64::NAN, None),
    ] {
        assert_eq!(fraction_as_whole(x.to_bits()), expected, "{}", x);
        if x.fract() == 0.0 && x >= -9223372036854775808.0 && x < 9223372036854775808.0 {
            assert_eq!(fraction_as_whole(x.to_bits()), Some(x as i64), "{}", x);
        }
    }
}

#[test]
fn arithmetic_gives_errors_not_wrong_numbers() {
    let zero = Err(Error::Internal("Division by zero".to_owned()));
    let negative = Err(Error::Internal("Power with a negative operand".to_owned()));
    let fractional = Err(Error::Internal("Power with a fractional operand".to_owned()));
    let text = Err(Error::IncorrectValueType("string".to_owned()));
    assert_eq!(div(whole(1), whole(0)), zero);
    assert_eq!(module(whole(1), whole(0)), zero);
    assert_eq!(div(fraction(1.5), whole(0)), zero);
    assert_eq!(module(fraction(1.5), whole(0)), zero);
    assert_eq!(module(whole(i64::MIN), whole(-1)), Ok(whole(0)));
    assert_eq!(pow(whole(2), whole(63)), overflow());
    assert_eq!(pow(whole(3), whole(40)), overflow());
    assert_eq!(pow(whole(-2), whole(2)), negative);
    assert_eq!(pow(whole(2), whole(-2)), negative);
    assert_eq!(pow(fraction(1.5), whole(2)), fractional);
    assert_eq!(pow(whole(2), fraction(0.5)), fractional);
    assert_eq!(sum(CaptureValue::boolean(true), whole(1)), Err(Error::IncorrectValueType("boolean".to_owned())));
    assert_eq!(sum(whole(1), CaptureValue::boolean(false)), Err(Error::IncorrectValueType("boolean".to_owned())));
    assert_eq!(sum(CaptureValue::string("abc"), whole(1)), text);
    assert_eq!(sum(CaptureValue::string("1.5x"), whole(1)), text);
    assert_eq!(sum(CaptureValue::string(""), whole(1)), text);
    assert_eq!(sum(whole(1), CaptureValue::string(" 2")), text);
    assert_eq!(sum(whole(1), CaptureValue::Nil), Err(Error::IncorrectValueType("nil".to_owned())));
    assert_eq!(sum(CaptureValue::Array(vec![]), CaptureValue::Nil), Err(Error::IncorrectValueType("array".to_owned())));
    assert_eq!(
        sum(whole(1), CaptureValue::Object(Object::new())),
        Err(Error::IncorrectValueType("object".to_owned()))
    );
    assert_eq!(unwrap_integer(&CaptureValue::string("-9223372036854775808")), Ok(Number::Whole(i64::MIN)));
    assert_eq!(unwrap_integer(&fraction(2.0)), Ok(Number::Whole(2)));
    assert_eq!(unwrap_integer(&fraction(2.5)), Ok(Number::Fraction(2.5f64.to_bits())));
    assert_eq!(compute(Arithmetic::Mod, 9, 4), Ok(1));
    assert_eq!(calculate(Arithmetic::Sub, &whole(1), &whole(2), &step), Ok(whole(-1)));
}

#[test]
fn arithmetic_on_fractional_numbers() {
    assert_eq!(sum(fraction(1.5), whole(1)), Ok(fraction(2.5)));
    assert_eq!(sum(whole(1), fraction(1.5)), Ok(fraction(2.5)));
    assert_eq!(sub(fraction(1.5), fraction(0.25)), Ok(fraction(1.25)));
    assert_eq!(mul(fraction(1.5), whole(3)), Ok(fraction(4.5)));
    assert_eq!(div(whole(7), whole(2)), Ok(fraction(3.5)));
    assert_eq!(div(whole(-7), whole(2)), Ok(fraction(-3.5)));
    assert_eq!(div(fraction(1.5), fraction(0.5)), Ok(fraction(3.0)));
    assert_eq!(module(fraction(7.5), whole(2)), Ok(fraction(1.5)));
    assert_eq!(sum(fraction(1e19), whole(1)), Ok(fraction(1e19)));
    assert_eq!(sum(whole(i64::MAX), whole(1)), Ok(fraction(9223372036854775808.0)));
    assert_eq!(sub(whole(i64::MIN), whole(1)), Ok(fraction(-9223372036854775808.0)));
    assert_eq!(mul(whole(i64::MAX), whole(2)), Ok(fraction(18446744073709551616.0)));
    assert_eq!(div(whole(i64::MIN), whole(-1)), Ok(fraction(9223372036854775808.0)));
    assert_eq!(sum(fraction(f64::NAN), whole(1)), Ok(fraction(f64::NAN + 1.0)));
    assert_eq!(sum(CaptureValue::string("1.5"), whole(1)), Ok(fraction(2.5)));
    assert_eq!(sum(CaptureValue::string("1e3"), whole(1)), Ok(whole(1001)));
    assert_eq!(sum(CaptureValue::string("9223372036854775808"), whole(1)), Ok(fraction(9223372036854775808.0)));
    assert_eq!(unwrap_integer(&CaptureValue::string("-0.25")), Ok(Number::Fraction((-0.25f64).to_bits())));
    assert_eq!(decide(Arithmetic::Add, Number::Whole(1), Number::Whole(2)), Ok(Some(3)));
    assert_eq!(decide(Arithmetic::Div, Number::Whole(7), Number::Whole(2)), Ok(None));
    assert_eq!(decide(Arithmetic::Div, Number::Whole(6), Number::Whole(-2)), Ok(Some(-3)));
    assert_eq!(decide(Arithmetic::Mul, Number::Fraction(0.5f64.to_bits()), Number::Whole(2)), Ok(None));
    assert_eq!(
        decide(Arithmetic::Div, Number::Whole(1), Number::Whole(0)),
        Err(Error::Internal("Division by zero".to_owned()))
    );
}

#[test]
fn a_fractional_result_is_set_and_named() {
    let pool = ContextPool::with_vars(Object::new());
    let mut context = pool.default_context();
    context.set("rate".to_owned(), fraction(1.5));
    assert_eq!(
        Operation::Add("rate".to_owned(), whole(1)).perform(&mut context, &step),
        Ok(Effect::Computed { variable: "rate".to_owned(), bits: 2.5f64.to_bits() })
    );
    assert_eq!(context.variables().get("rate"), Some(&fraction(2.5)));
    context.set("count".to_owned(), whole(7));
    assert_eq!(
        Operation::Div("count".to_owned(), whole(2)).perform(&mut context, &step),
        Ok(Effect::Computed { variable: "count".to_owned(), bits: 3.5f64.to_bits() })
    );
    assert_eq!(context.variables().get("count"), Some(&fraction(3.5)));
    assert_eq!(
        Operation::Add("count".to_owned(), CaptureValue::string("abc")).perform(&mut context, &step),
        Err(Error::IncorrectValueType("string".to_owned()))
    );
    assert_eq!(context.variables().get("count"), Some(&fraction(3.5)));
}

#[test]
fn whole_numbers_as_text_and_back() {
    for i in [0, 1, -1, 9, 10, 11, 99, 100, 101, -100, 1234567890, i64::MAX, i64::MIN, i64::MIN + 1] {
        assert_eq!(integer_text(i), i.to_string());
        assert_eq!(parse_integer(&i.to_string()), Some(i));
    }
    assert_eq!(parse_integer("+5"), Some(5));
    assert_eq!(parse_integer("007"), Some(7));
    assert_eq!(parse_integer("-0"), Some(0));
    for text in ["", "-", "+", "--1", "1-", "1 ", " 1", "1_000", "0x10", "9223372036854775808", "-9223372036854775809", "１"] {
        assert_eq!(parse_integer(text), None, "{}", text);
    }
    assert!(has_short_numbers("a 123456789012345678 b"));
    assert!(!has_short_numbers("a 1234567890123456789 b"));
    assert!(has_short_numbers("123456789.0123456789"));
    assert!(has_short_numbers(""));
    assert!(contains_part("a template", "temp"));
    assert!(contains_part("a template", ""));
    assert!(contains_part("", ""));
    assert!(contains_part("abc", "abc"));
    assert!(contains_part("aab", "ab"));
    assert!(!contains_part("abc", "abcd"));
    assert!(!contains_part("abc", "ca"));
    assert!(same_text("é", "é"));
    assert!(!same_text("e", "é"));
}

#[test]
fn an_operation_changes_its_variable() {
    let pool = ContextPool::with_vars(Object::of(vec![("count".to_owned(), whole(41))]));
    let mut context = pool.default_context();
    assert_eq!(Operation::Add("count".to_owned(), whole(1)).perform(&mut context, &step), Ok(Effect::Nothing));
    assert_eq!(context.variables().get("count"), Some(&whole(42)));
    assert_eq!(Operation::Mul("count".to_owned(), whole(2)).perform(&mut context, &step), Ok(Effect::Nothing));
    assert_eq!(Operation::Sub("count".to_owned(), whole(4)).perform(&mut context, &step), Ok(Effect::Nothing));
    assert_eq!(Operation::Div("count".to_owned(), whole(8)).perform(&mut context, &step), Ok(Effect::Nothing));
    assert_eq!(Operation::Pow("count".to_owned(), whole(2)).perform(&mut context, &step), Ok(Effect::Nothing));
    assert_eq!(Operation::Mod("count".to_owned(), whole(7)).perform(&mut context, &step), Ok(Effect::Nothing));
    assert_eq!(context.variables().get("count"), Some(&whole(2)));
    assert_eq!(
        Operation::Add("absent".to_owned(), whole(1)).perform(&mut context, &step),
        Err(Error::ValueNotFound("Value not found".to_owned()))
    );
    assert_eq!(
        Operation::Div("count".to_owned(), whole(0)).perform(&mut context, &step),
        Err(Error::Internal("Division by zero".to_owned()))
    );
    assert_eq!(context.variables().get("count"), Some(&whole(2)));
    assert_eq!(context.variables().len(), 1);
}

#[test]
fn a_console_line_is_rendered() {
    let pool = ContextPool::with_vars(Object::of(vec![("who".to_owned(), CaptureValue::string("world"))]));
    let mut context = pool.default_context();
    assert_eq!(
        Operation::Console("hello {{who}}".to_owned()).perform(&mut context, &step),
        Ok(Effect::Line("hello world".to_owned()))
    );
    assert!(matches!(Operation::Console("{{".to_owned()).perform(&mut context, &step), Err(Error::Syntax(_))));
    assert_eq!(console("a line"), Ok("a line".to_owned()));
}

#[test]
fn values_are_appended_as_rows() {
    let text = |bytes: Result<Vec<u8>, Error>| String::from_utf8(bytes.unwrap()).unwrap();
    assert_eq!(text(push_csv("id", &whole(7), false)), "id\n7\n");
    assert_eq!(text(push_csv("id", &whole(7), true)), "7\n");
    assert_eq!(text(push_csv("id", &CaptureValue::string("a,b \"c\""), true)), "\"a,b \"\"c\"\"\"\n");
    assert_eq!(text(push_csv("id", &CaptureValue::boolean(false), true)), "false\n");
    assert_eq!(text(push_csv("id", &CaptureValue::float_bits(42.5f64.to_bits()), true)), "42.5\n");
    let list = CaptureValue::Array(vec![whole(1), CaptureValue::string("two"), CaptureValue::boolean(true)]);
    assert_eq!(text(push_csv("n", &list, false)), "n\n1\ntwo\ntrue\n");
    assert_eq!(text(push_csv("n", &list, true)), "1\ntwo\ntrue\n");
    let object = CaptureValue::Object(Object::of(vec![("id".to_owned(), whole(1)), ("name".to_owned(), CaptureValue::string("a"))]));
    assert_eq!(text(push_csv("user", &object, false)), "id,name\n1,a\n");
    assert_eq!(text(push_csv("user", &object, true)), "1,a\n");
    assert_eq!(text(push_csv("x", &CaptureValue::Nil, false)), "");
    assert_eq!(text(push_csv("x", &CaptureValue::Array(vec![]), false)), "x\n");
    let nested = CaptureValue::Array(vec![whole(1), CaptureValue::Array(vec![])]);
    assert_eq!(push_csv("x", &nested, false), Err(Error::IncorrectValueType("array".to_owned())));
    let deep = CaptureValue::Object(Object::of(vec![("k".to_owned(), CaptureValue::Nil)]));
    assert_eq!(push_csv("x", &deep, true), Err(Error::IncorrectValueType("nil".to_owned())));
    assert_eq!(
        rows_of("h", &list, false),
        Ok(vec![vec!["h".to_owned()], vec!["1".to_owned()], vec!["two".to_owned()], vec!["true".to_owned()]])
    );
    assert_eq!(encode_rows(&vec![vec!["a".to_owned(), "b".to_owned()]]), Ok(b"a,b\n".to_vec()));
    assert_eq!(scalar_cell(&Scalar::Integer(-5)), "-5");
}

#[test]
fn an_append_gives_both_forms_of_the_bytes() {
    let pool = ContextPool::with_vars(Object::of(vec![("id".to_owned(), whole(7))]));
    let mut context = pool.default_context();
    assert_eq!(
        Operation::PushCsv("id".to_owned(), "out.csv".to_owned()).perform(&mut context, &step),
        Ok(Effect::Append { path: "out.csv".to_owned(), fresh: b"id\n7\n".to_vec(), existing: b"7\n".to_vec() })
    );
    assert_eq!(
        Operation::PushCsv("no".to_owned(), "out.csv".to_owned()).perform(&mut context, &step),
        Err(Error::ValueNotFound("Value not found".to_owned()))
    );
}
