use pipeline_engine::app::assertion::{rendered_value, AssertFunction, Assertable, Resolvable, Variable};
use pipeline_engine::app::context::ContextPool;
use pipeline_engine::app::error::Error;
use pipeline_engine::app::value::{CaptureValue, Object, Scalar};

fn pool_with(name: &str, value: CaptureValue) -> ContextPool {
    ContextPool::with_vars(Object::of(vec![(name.to_owned(), value)]))
}

#[test]
fn test_value_equals_to_expexted_value() {
    let value = CaptureValue::Scalar(Scalar::Integer(42));
    let assert_function = AssertFunction::Equal(
        Variable::Value(CaptureValue::Scalar(Scalar::Integer(42))),
        Variable::Value(value),
    );
    let result = assert_function.check(&ContextPool::new().default_context());

    assert!(result.unwrap());
}

#[test]
fn test_value_equals_to_variable() {
    let value = CaptureValue::Scalar(Scalar::Integer(42));
    let assert_function = AssertFunction::Equal(
        Variable::Path(vec!["expect".into()]),
        Variable::Value(value.clone()),
    );
    let result = assert_function.check(&pool_with("expect", value.clone()).default_context());

    assert!(result.unwrap());
}

#[test]
fn test_value_not_equals_to_expexted_value() {
    let value = CaptureValue::Scalar(Scalar::Integer(42));
    let assert_function = AssertFunction::NotEqual(
        Variable::Value(CaptureValue::Scalar(Scalar::Integer(43))),
        Variable::Value(value),
    );
    let result = assert_function.check(&ContextPool::new().default_context());

    assert!(result.unwrap());
}

#[test]
fn test_value_not_equals_to_variable() {
    let expected = CaptureValue::Scalar(Scalar::Integer(42));
    let value = CaptureValue::Scalar(Scalar::Integer(43));
    let assert_function = AssertFunction::NotEqual(
        Variable::Path(vec!["expect".into()]),
        Variable::Value(value),
    );
    let result = assert_function.check(&pool_with("expect", expected).default_context());

    assert!(result.unwrap());
}

#[test]
fn test_value_equals_to_nested_variable() {
    let expected = CaptureValue::Scalar(Scalar::Integer(42));
    let value = expected.clone();
    let object = Object::of(vec![("value".to_owned(), value)]);
    let assert_function = AssertFunction::Equal(
        Variable::Path(vec!["expect".into(), "value".into()]),
        Variable::Value(expected),
    );
    let result = assert_function
        .check(&pool_with("expect", CaptureValue::Object(object)).default_context());

    assert!(result.unwrap());
}

#[test]
fn equal_literals_hold_and_unequal_do_not() {
    let values = vec![
        CaptureValue::Nil,
        CaptureValue::integer(-7),
        CaptureValue::float_bits(f64::NAN.to_bits()),
        CaptureValue::boolean(true),
        CaptureValue::string("text"),
        CaptureValue::Array(vec![CaptureValue::integer(1), CaptureValue::Nil]),
        CaptureValue::Object(Object::of(vec![("a".to_owned(), CaptureValue::integer(1))])),
    ];
    let context = ContextPool::new().default_context();
    for value in values {
        let equal = AssertFunction::Equal(Variable::Value(value.clone()), Variable::Value(value.clone()));
        assert_eq!(equal.check(&context), Ok(true));
        let unequal = AssertFunction::NotEqual(Variable::Value(value.clone()), Variable::Value(value));
        assert_eq!(unequal.check(&context), Ok(false));
    }
}

#[test]
fn missing_path_breaks_the_assertion() {
    let context = ContextPool::new().default_context();
    let function = AssertFunction::Equal(
        Variable::Path(vec!["absent".into()]),
        Variable::Value(CaptureValue::integer(1)),
    );
    assert_eq!(function.check(&context), Err(Error::AssertionFailed("Value not found".to_owned())));
    let both = AssertFunction::Equal(
        Variable::Path(vec!["absent".into()]),
        Variable::Path(vec!["gone".into()]),
    );
    assert_eq!(
        both.check(&context),
        Err(Error::AssertionFailed("Errors: 'Value not found' and 'Value not found'".to_owned()))
    );
}

#[test]
fn path_resolution_gives_the_nested_value() {
    let inner = CaptureValue::Array(vec![CaptureValue::string("zero"), CaptureValue::string("one")]);
    let object = Object::of(vec![
        ("list".to_owned(), inner),
        ("deep".to_owned(), CaptureValue::Object(Object::of(vec![("x".to_owned(), CaptureValue::integer(5))]))),
    ]);
    let context = pool_with("root", CaptureValue::Object(object)).default_context();
    let path = |segments: &[&str]| Variable::Path(segments.iter().map(|s| s.to_string()).collect());
    assert_eq!(path(&["root", "list", "1"]).resolve(&context), Ok(CaptureValue::string("one")));
    assert_eq!(path(&["root", "deep", "x"]).resolve(&context), Ok(CaptureValue::integer(5)));
    assert_eq!(
        path(&["root", "list", "2"]).resolve(&context),
        Err(Error::ValueNotFound("Value not found".to_owned()))
    );
    assert_eq!(
        path(&["root", "deep", "x", "y"]).resolve(&context),
        Err(Error::ValueNotFound("Value not found".to_owned()))
    );
    assert_eq!(
        path(&["root", "list", "first"]).resolve(&context),
        Err(Error::ValueNotFound("Value not found".to_owned()))
    );
}

#[test]
fn matches_applies_the_regular_expression_to_strings() {
    let context = pool_with("id", CaptureValue::string("user-42")).default_context();
    let hit = AssertFunction::Matches(Variable::Path(vec!["id".into()]), "^user-\\d+$".to_owned());
    assert_eq!(hit.check(&context), Ok(true));
    let miss = AssertFunction::Matches(Variable::Path(vec!["id".into()]), "^\\d+$".to_owned());
    assert_eq!(miss.check(&context), Ok(false));
    let number = AssertFunction::Matches(Variable::Value(CaptureValue::integer(1)), "1".to_owned());
    assert_eq!(
        number.check(&context),
        Err(Error::AssertionFailed("Unsupported value type 'whole number'".to_owned()))
    );
    let array = AssertFunction::Matches(Variable::Value(CaptureValue::Array(vec![])), "1".to_owned());
    assert_eq!(
        array.check(&context),
        Err(Error::AssertionFailed("Unsupported value type 'array'".to_owned()))
    );
    assert_eq!(
        AssertFunction::matches(Variable::Path(vec!["id".into()]), "^user"),
        Ok(AssertFunction::Matches(Variable::Path(vec!["id".into()]), "^user".to_owned()))
    );
    assert_eq!(
        AssertFunction::matches(Variable::Path(vec!["id".into()]), "("),
        Err(Error::Syntax("Source is not a regular expression".to_owned()))
    );
    let broken = AssertFunction::Matches(Variable::Path(vec!["id".into()]), "(".to_owned());
    assert_eq!(
        broken.check(&context),
        Err(Error::AssertionFailed("Source is not a regular expression".to_owned()))
    );
}

#[test]
fn template_operand_resolves_to_the_rendered_string() {
    let context = pool_with("expect", CaptureValue::integer(42)).default_context();
    let function = AssertFunction::Equal(
        Variable::Template("{{expect}}".to_owned()),
        Variable::Value(CaptureValue::string("42")),
    );
    assert_eq!(function.check(&context), Ok(true));
    let failing = AssertFunction::Equal(
        Variable::Template("{{ unclosed".to_owned()),
        Variable::Value(CaptureValue::string("42")),
    );
    assert!(matches!(failing.check(&context), Err(Error::Syntax(_))));
}

#[test]
fn a_rendered_template_stands_for_its_text() {
    assert_eq!(rendered_value(Ok("42".to_owned())), Ok(CaptureValue::string("42")));
    assert_eq!(rendered_value(Ok(String::new())), Ok(CaptureValue::string("")));
    assert_eq!(rendered_value(Err(Error::Syntax("broken".to_owned()))), Err(Error::Syntax("broken".to_owned())));
}

#[test]
fn every_short_pattern_matches_or_is_reported() {
    let context = ContextPool::new().default_context();
    let pieces = ["a", ".", "*", "+", "?", "(", ")", "[", "]", "{", "}", "|", "\\", "^", "$", "1", ",", "-", "\u{e9}", "(?i", ":"];
    let mut places = vec![0usize; 3];
    let mut decided = 0;
    loop {
        let source: String = places.iter().map(|place| pieces[*place]).collect();
        let subject = Variable::Value(CaptureValue::string("a1\u{e9}-a"));
        match AssertFunction::Matches(subject, source.clone()).check(&context) {
            Ok(_) => decided += 1,
            Err(Error::AssertionFailed(_)) => {}
            Err(other) => panic!("{:?} for {:?}", other, source),
        }
        let mut at = 0;
        while at < places.len() && places[at] + 1 == pieces.len() {
            places[at] = 0;
            at += 1;
        }
        if at == places.len() {
            break;
        }
        places[at] += 1;
    }
    assert!(decided > 500, "{}", decided);
}
