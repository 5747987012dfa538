use pipeline_engine::app::capture::{
    capture_all, capture_each, capture_json, parse_json, Capture, CaptureEntry, Convert,
};
use pipeline_engine::app::context::ContextPool;
use pipeline_engine::app::error::Error;
use pipeline_engine::app::json::{collapse, Json};
use pipeline_engine::app::value::{CaptureValue, Object, Scalar};

fn json(text: &str) -> Json {
    parse_json(text).unwrap()
}

#[test]
fn test_convertation_into_liquid_value() {
    let value_null = json("null");
    let value_number_int = json("42");
    let value_number_float = json("42.5");
    let value_bool = json("true");
    let value_string = json("\"some string\"");
    let value_array = json("[\"an\", \"array\"]");
    let value_object = json("{ \"an\": \"object\" }");

    assert!(matches!(value_null.convert(), CaptureValue::Nil));
    {
        let value = value_number_int.convert();
        assert_eq!(value, CaptureValue::Scalar(Scalar::Integer(42)));
    }
    {
        let value = value_number_float.convert();
        assert_eq!(value, CaptureValue::Scalar(Scalar::Float(42.5f64.to_bits())));
    }
    {
        let value = value_bool.convert();
        assert_eq!(value, CaptureValue::Scalar(Scalar::Bool(true)));
    }
    {
        let value = value_string.convert();
        assert_eq!(value, CaptureValue::Scalar(Scalar::Str("some string".to_owned())));
    }
    {
        let value = value_array.convert();
        let expected = CaptureValue::Array(vec![
            CaptureValue::Scalar(Scalar::Str("an".to_owned())),
            CaptureValue::Scalar(Scalar::Str("array".to_owned())),
        ]);
        assert_eq!(value, expected);
    }
    {
        let value = value_object.convert();
        let object = Object::of(vec![("an".to_owned(), CaptureValue::Scalar(Scalar::Str("object".to_owned())))]);
        let expected = CaptureValue::Object(object);
        assert_eq!(value, expected);
    }
}

#[test]
fn test_apply_template() {
    let value = CaptureValue::Scalar(Scalar::Integer(42));
    let context =
        ContextPool::with_vars(Object::of(vec![("expect".to_owned(), value)])).default_context();
    let body = "{{expect}}".to_owned();
    let result = context.apply(&body);

    assert_eq!(result, Ok("42".to_owned()));
}

#[test]
fn templates_see_every_kind_of_value() {
    let object = Object::of(vec![
        ("whole".to_owned(), CaptureValue::integer(-3)),
        ("part".to_owned(), CaptureValue::float_bits(42.5f64.to_bits())),
        ("flag".to_owned(), CaptureValue::boolean(true)),
        ("text".to_owned(), CaptureValue::string("plain")),
        ("none".to_owned(), CaptureValue::Nil),
        ("list".to_owned(), CaptureValue::Array(vec![CaptureValue::integer(1), CaptureValue::integer(2)])),
        (
            "user".to_owned(),
            CaptureValue::Object(Object::of(vec![("id".to_owned(), CaptureValue::integer(9))])),
        ),
    ]);
    let context = ContextPool::with_vars(object).default_context();
    assert_eq!(
        context.apply("{{whole}} {{part}} {{flag}} {{text}} [{{none}}] {{list[1]}} {{user.id}}"),
        Ok("-3 42.5 true plain [] 2 9".to_owned())
    );
    assert_eq!(context.apply("no template"), Ok("no template".to_owned()));
    assert!(matches!(context.apply("{{ missing }}"), Err(Error::Syntax(_))));
    assert!(matches!(context.apply("{% if %}"), Err(Error::Syntax(_))));
    assert_eq!(
        context.apply("{{ 1234567890123456789 }}"),
        Err(Error::Syntax("Template holds a number of more than 18 digits".to_owned()))
    );
    assert_eq!(context.apply("{{ 123456789012345678 }}"), Ok("123456789012345678".to_owned()));
}

#[test]
fn an_object_holds_each_name_once() {
    let inner = Object::of(vec![
        ("id".to_owned(), CaptureValue::integer(1)),
        ("id".to_owned(), CaptureValue::integer(2)),
    ]);
    let object = Object::of(vec![
        ("a".to_owned(), CaptureValue::string("first")),
        ("b".to_owned(), CaptureValue::Object(inner)),
        ("a".to_owned(), CaptureValue::string("second")),
    ]);
    assert_eq!(object.len(), 2);
    assert_eq!(object.entries()[0], ("a".to_owned(), CaptureValue::string("second")));
    let context = ContextPool::with_vars(object).default_context();
    assert_eq!(context.apply("{{a}} {{b.id}}"), Ok("second 2".to_owned()));
    assert_eq!(context.find_path(&vec!["a".to_owned()]), Some(CaptureValue::string("second")));
}

#[test]
fn json_numbers_prefer_whole_numbers() {
    assert_eq!(json("9223372036854775807").convert(), CaptureValue::integer(i64::MAX));
    assert_eq!(json("-9223372036854775808").convert(), CaptureValue::integer(i64::MIN));
    assert_eq!(
        json("9223372036854775808").convert(),
        CaptureValue::float_bits(9223372036854775808f64.to_bits())
    );
    assert_eq!(json("1e3").convert(), CaptureValue::float_bits(1000f64.to_bits()));
    assert_eq!(json("-0.0").convert(), CaptureValue::float_bits((-0.0f64).to_bits()));
    assert!(parse_json("{").is_none());
    assert!(parse_json("").is_none());
}

#[test]
fn json_round_trip_gives_the_document_back() {
    for text in [
        "null",
        "true",
        "-17",
        "2.25",
        "\"text\"",
        "[]",
        "{}",
        "[1, [2, [3, null]], {\"a\": {\"b\": [false]}}]",
        "{\"z\": 1, \"a\": 2, \"m\": {\"k\": \"v\"}}",
        "18446744073709551615",
    ] {
        let document = json(text);
        assert_eq!(document.convert().to_json(), document, "{}", text);
    }
    assert_eq!(CaptureValue::float_bits(f64::INFINITY.to_bits()).to_json(), Json::Null);
    assert_eq!(CaptureValue::float_bits(f64::NAN.to_bits()).to_json(), Json::Null);
    assert_eq!(CaptureValue::float_bits(1.5f64.to_bits()).to_json(), Json::Float(1.5f64.to_bits()));
}

#[test]
fn objects_keep_the_first_place_of_a_name() {
    let document = Json::Object(vec![
        ("a".to_owned(), Json::Integer(1)),
        ("b".to_owned(), Json::Integer(2)),
        ("a".to_owned(), Json::Integer(3)),
    ]);
    let expected = Object::of(vec![("a".to_owned(), CaptureValue::integer(3)), ("b".to_owned(), CaptureValue::integer(2))]);
    assert_eq!(document.convert(), CaptureValue::Object(expected));
    let mut object = Object::new();
    assert_eq!(object.len(), 0);
    object.insert("x".to_owned(), CaptureValue::integer(1));
    object.insert("y".to_owned(), CaptureValue::integer(2));
    object.insert("x".to_owned(), CaptureValue::integer(3));
    assert_eq!(object.entries(), &vec![("x".to_owned(), CaptureValue::integer(3)), ("y".to_owned(), CaptureValue::integer(2))]);
    assert_eq!(object.get("y"), Some(&CaptureValue::integer(2)));
    assert_eq!(object.get("z"), None);
    assert!(object.contains_key("x"));
    assert_eq!(object.position("y"), Some(1));
}

#[test]
fn found_documents_collapse() {
    assert_eq!(collapse(&vec![]), CaptureValue::Nil);
    assert_eq!(collapse(&vec![Json::Integer(1)]), CaptureValue::integer(1));
    assert_eq!(
        collapse(&vec![Json::Integer(1), Json::Null]),
        CaptureValue::Array(vec![CaptureValue::integer(1), CaptureValue::Nil])
    );
    assert_eq!(vec![Json::Bool(false)].convert(), CaptureValue::boolean(false));
}

#[test]
fn values_name_their_kind_and_compare_by_structure() {
    assert_eq!(CaptureValue::Nil.kind_name(), "nil");
    assert_eq!(CaptureValue::integer(1).kind_name(), "whole number");
    assert_eq!(CaptureValue::float_bits(0).kind_name(), "fractional number");
    assert_eq!(CaptureValue::boolean(false).kind_name(), "boolean");
    assert_eq!(CaptureValue::string("").kind_name(), "string");
    assert_eq!(CaptureValue::Array(vec![]).kind_name(), "array");
    assert_eq!(CaptureValue::Object(Object::new()).kind_name(), "object");
    let a = CaptureValue::Array(vec![CaptureValue::integer(1), CaptureValue::string("x")]);
    let b = CaptureValue::Array(vec![CaptureValue::integer(1), CaptureValue::string("x")]);
    let c = CaptureValue::Array(vec![CaptureValue::string("x"), CaptureValue::integer(1)]);
    assert!(a.equals(&b));
    assert!(!a.equals(&c));
    assert!(!CaptureValue::integer(1).equals(&CaptureValue::float_bits(1f64.to_bits())));
    assert!(!CaptureValue::Nil.equals(&CaptureValue::Array(vec![])));
    assert!(a.duplicate().equals(&a));
    let entry = |name: &str, value: i64| (name.to_owned(), CaptureValue::integer(value));
    let one = CaptureValue::Object(Object::of(vec![entry("a", 1), entry("b", 2)]));
    let other = CaptureValue::Object(Object::of(vec![entry("b", 2), entry("a", 1)]));
    let third = CaptureValue::Object(Object::of(vec![entry("a", 1), entry("b", 3)]));
    let short = CaptureValue::Object(Object::of(vec![entry("a", 1)]));
    assert!(one.equals(&other));
    assert!(other.equals(&one));
    assert!(!one.equals(&third));
    assert!(!one.equals(&short));
    assert!(!short.equals(&one));
    let twice = CaptureValue::Object(Object::of(vec![entry("a", 1), entry("a", 2)]));
    assert!(twice.equals(&twice));
    assert!(!one.equals(&twice));
    let mut set = Object::new();
    set.insert("a".to_owned(), CaptureValue::integer(1));
    set.insert("b".to_owned(), CaptureValue::integer(2));
    set.insert("a".to_owned(), CaptureValue::integer(3));
    assert_eq!(set.entries(), &vec![entry("a", 3), entry("b", 2)]);
}

#[test]
fn captures_take_values_out_of_bodies() {
    let capture = Capture::json("$.n").unwrap();
    assert_eq!(capture.capture(b"{\"n\":1}"), Ok(CaptureValue::integer(1)));
    assert_eq!(capture.capture(b"{\"m\":1}"), Ok(CaptureValue::Nil));
    assert_eq!(capture.capture(b"not json"), Ok(CaptureValue::Nil));
    assert_eq!(capture.capture(&[0xff, 0xfe]), Ok(CaptureValue::Nil));
    assert_eq!(capture.capture_text("{\"n\":\"x\"}"), Ok(CaptureValue::string("x")));
    let many = Capture::json("$.pets.*.name").unwrap();
    assert_eq!(
        many.capture(b"{\"pets\":[{\"name\":\"Tom\"},{\"name\":\"Rex\"}]}"),
        Ok(CaptureValue::Array(vec![CaptureValue::string("Tom"), CaptureValue::string("Rex")]))
    );
    let indexed = Capture::json("$.pets[1]").unwrap();
    assert_eq!(
        indexed.capture(b"{\"pets\":[1,{\"k\":[true]}]}"),
        Ok(CaptureValue::Object(Object::of(vec![("k".to_owned(), CaptureValue::Array(vec![CaptureValue::boolean(true)]))])))
    );
    assert_eq!(capture_json("$", "[1.5]"), CaptureValue::Array(vec![CaptureValue::float_bits(1.5f64.to_bits())]));
}

#[test]
fn a_capture_run_twice_gives_equal_values() {
    let capture = Capture::json("$.a.*").unwrap();
    let body = b"{\"a\":{\"x\":[1,2],\"y\":{\"z\":null}}}";
    let first = capture.capture(body).unwrap();
    let second = capture.capture(body).unwrap();
    assert_eq!(first, second);
    assert!(first.equals(&second));
}

#[test]
fn captures_are_checked_when_they_are_made() {
    let syntax = Err(Error::Syntax("Expression is not a usable JSONPath selector".to_owned()));
    assert_eq!(Capture::json("n"), syntax);
    assert_eq!(Capture::json("$.a[?(@.b == 1234567890123456789)]"), syntax);
    assert_eq!(Capture::json("$.a[?($.b > 5)]"), syntax);
    assert_eq!(Capture::json("$.a.b"), Ok(Capture::Json("$.a.b".to_owned())));
    assert!(Capture::json("$.a[?(@.b > 5)]").is_ok());
    assert_eq!(Capture::regex("a+"), Ok(Capture::Regex("a+".to_owned())));
    assert_eq!(Capture::regex("a("), Err(Error::Syntax("Source is not a regular expression".to_owned())));
    assert_eq!(
        Capture::Regex("a+".to_owned()).capture(b"aaa"),
        Err(Error::Internal("Capture by regular expression is not supported".to_owned()))
    );
    assert_eq!(Capture::Json("n".to_owned()).capture(b"{\"n\":1}"), Ok(CaptureValue::Nil));
}

#[test]
fn captures_gather_in_one_object() {
    let entries = vec![
        CaptureEntry { cap: Capture::Json("$.n".to_owned()), variable: "count".to_owned() },
        CaptureEntry { cap: Capture::Regex("x".to_owned()), variable: "skipped".to_owned() },
        CaptureEntry { cap: Capture::Json("$.s".to_owned()), variable: "name".to_owned() },
        CaptureEntry { cap: Capture::Json("$.s".to_owned()), variable: "count".to_owned() },
    ];
    let expected = Object::of(vec![
        ("count".to_owned(), CaptureValue::string("t")),
        ("name".to_owned(), CaptureValue::string("t")),
    ]);
    assert_eq!(capture_all(&entries, b"{\"n\":1,\"s\":\"t\"}"), CaptureValue::Object(expected));
    assert_eq!(capture_all(&entries, &[0xc3, 0x28]), CaptureValue::Nil);
    let nothing = Object::of(vec![("count".to_owned(), CaptureValue::Nil), ("name".to_owned(), CaptureValue::Nil)]);
    assert_eq!(capture_each(&entries, &[0xc3, 0x28]), nothing);
    assert_eq!(capture_each(&entries, b"no json"), nothing);
}
