use pipeline_engine::app::capture::{capture_json, Capture};
use pipeline_engine::app::context::ContextPool;
use pipeline_engine::app::error::Error;
use pipeline_engine::app::value::{CaptureValue, Object};

const DOCUMENTS: [&str; 12] = [
    "null",
    "1",
    "\"text\"",
    "[]",
    "{}",
    "[1, 2, 3, 4, 5]",
    "[[1, [2, [3]]], {\"a\": [{\"a\": 1}]}]",
    "{\"a\": 1, \"b\": {\"a\": 2, \"c\": {\"a\": 3}}}",
    "{\"a\": [{\"id\": 1, \"name\": \"x\"}, {\"id\": 2, \"name\": \"y\"}, {\"name\": \"z\"}]}",
    "{\"user\": {\"age\": 30.5, \"tags\": [\"a\", \"b\"]}, \"pets\": [{\"type\": \"cat\", \"age\": 3}]}",
    "{\"a\": {\"a\": {\"a\": {\"a\": [{\"a\": null}]}}}}",
    "[{\"a\": \"1\"}, {\"a\": 1}, {\"a\": 1.0}, {\"a\": true}, {\"a\": [1]}, {\"a\": {\"a\": 1}}]",
];

const SELECTORS: [&str; 30] = [
    "$",
    "$.a",
    "$.a.a",
    "$.a.a.a.a",
    "$.*",
    "$.*.*",
    "$.*.a",
    "$.a.*",
    "$.a.*.name",
    "$[0]",
    "$[1]",
    "$[7]",
    "$[0][0]",
    "$[1].a[0].a",
    "$[1:3]",
    "$[:2]",
    "$[3:]",
    "$[0:0]",
    "$[5:1]",
    "$.a[0]",
    "$.a[1].name",
    "$.a[?(@.id == 1)]",
    "$.a[?(@.id > 1)]",
    "$.a[?(@.id < 2)]",
    "$.a[?(@.name == 'x')]",
    "$.a[?(@.name != 'x')].name",
    "$.pets[?(@.age > 2.5)].type",
    "$.pets[?(@.age < 2.5)]",
    "$.a[?($.a == 'x')]",
    "$[?(@.a == 1)].a",
];

#[test]
fn selectors_meet_documents_without_giving_up() {
    for selector in SELECTORS {
        assert!(Capture::json(selector).is_ok(), "{}", selector);
        for document in DOCUMENTS {
            let first = capture_json(selector, document);
            let second = capture_json(selector, document);
            assert_eq!(first, second, "{} in {}", selector, document);
        }
    }
}

#[test]
fn selectors_find_what_they_name() {
    let whole = |i: i64| CaptureValue::integer(i);
    assert_eq!(capture_json("$[1:3]", "[1, 2, 3, 4, 5]"), CaptureValue::Array(vec![whole(2), whole(3), whole(4)]));
    assert_eq!(capture_json("$[:2]", "[1, 2, 3, 4, 5]"), CaptureValue::Array(vec![whole(1), whole(2)]));
    assert_eq!(capture_json("$[3:]", "[1, 2, 3, 4, 5]"), CaptureValue::Array(vec![whole(4), whole(5)]));
    assert_eq!(capture_json("$[7]", "[1, 2, 3, 4, 5]"), CaptureValue::Nil);
    assert_eq!(
        capture_json("$.*.a", "{\"a\": 1, \"b\": {\"a\": 2, \"c\": {\"a\": 3}}}"),
        whole(2)
    );
    assert_eq!(
        capture_json(
            "$.a[?(@.id > 1)].name",
            "{\"a\": [{\"id\": 1, \"name\": \"x\"}, {\"id\": 2, \"name\": \"y\"}, {\"name\": \"z\"}]}"
        ),
        CaptureValue::string("y")
    );
    assert_eq!(capture_json("$", "{\"b\": 1, \"a\": 2}"), CaptureValue::Object(Object::of(vec![("a".to_owned(), whole(2)), ("b".to_owned(), whole(1))])));
}

#[test]
fn expressions_that_are_not_usable_capture_nothing() {
    for selector in ["", "a", "$.", "$..a", "$[", "$[a]", "$.a[?(@.b)]", "$.a[?(@.b == )]", "@.a", "$.a b", "$[-1]"] {
        assert!(Capture::json(selector).is_err(), "{}", selector);
        assert_eq!(capture_json(selector, "{\"a\": 1}"), CaptureValue::Nil, "{}", selector);
    }
    for selector in ["$[12345678901234567890]", "$.1234567890123456789012", "$.a[99999999999999999999:]"] {
        assert_eq!(Capture::json(selector).is_ok(), selector.len() < 26, "{}", selector);
        assert_eq!(capture_json(selector, "{\"a\": [{\"b\": 6}], \"b\": 6}"), CaptureValue::Nil, "{}", selector);
    }
    for selector in ["$.a[?($.b > 5)]", "$.a[?($.b < 5)]", "$.a[?(@.b == 1234567890123456789)]"] {
        assert!(Capture::json(selector).is_err(), "{}", selector);
        assert_eq!(capture_json(selector, "{\"a\": [{\"b\": 6}], \"b\": 6}"), CaptureValue::Nil, "{}", selector);
    }
}

#[test]
fn templates_with_dividing_filters_are_not_rendered() {
    let context = ContextPool::with_vars(Object::of(vec![
        ("x".to_owned(), CaptureValue::integer(i64::MIN)),
        ("surplus".to_owned(), CaptureValue::integer(3)),
        ("cols".to_owned(), CaptureValue::integer(2)),
    ]))
    .default_context();
    let refused = Err(Error::Syntax("Template names a filter that is not supported".to_owned()));
    let tag = Err(Error::Syntax("Template names a tag that is not supported".to_owned()));
    let lines = Err(Error::Syntax("Template holds markup that does not end on its line".to_owned()));
    assert_eq!(context.apply("{{ x | divided_by: -1 }}"), refused);
    assert_eq!(context.apply("{{ x | modulo: -1 }}"), refused);
    assert_eq!(context.apply("{{ 6 | divided_by: 3 }}"), refused);
    assert_eq!(context.apply("{{ x | plus: 1 }}"), refused);
    assert_eq!(context.apply("{{ x | abs }}"), refused);
    assert_eq!(context.apply("{{ x |minus: 1 }}"), refused);
    assert_eq!(context.apply("{{ 999999999999999999 | times: 999999999999999999 }}"), refused);
    assert_eq!(context.apply("{{ 'abc' | upcase | slice: 1, 2 }}"), refused);
    assert_eq!(context.apply("{{ \"now\" | date: \"%Y\" }}"), refused);
    assert_eq!(context.apply("{{ \"0\" | date: \"%\u{e9}\" }}"), refused);
    assert_eq!(context.apply("{{ surplus | sort }}"), refused);
    assert_eq!(context.apply("{{ surplus | upcases }}"), refused);
    assert_eq!(context.apply("{{ surplus | }}"), refused);
    assert_eq!(context.apply("{{ surplus |\tupcase }}"), refused);
    assert_eq!(context.apply("{{ surplus | \n upcase }}"), lines);
    assert_eq!(context.apply("{{ 'a\nb' }}"), lines);
    assert_eq!(context.apply("{% tablerow i in list cols:0 %}{{ i }}{% endtablerow %}"), tag);
    assert_eq!(context.apply("{% cycle group: %}"), tag);
    assert_eq!(context.apply("{% raw %}{{ x }}{% endraw %}"), tag);
    assert_eq!(context.apply("{% comment %}x{% endcomment %}"), tag);
    assert_eq!(context.apply("{%- iff x %}"), tag);
    assert_eq!(context.apply("{%%}"), tag);
    assert_eq!(
        context.apply("{% for i in (1..3) %}{{ i }}{% endfor %}"),
        Err(Error::Syntax("Template counts through a range".to_owned()))
    );
    assert_eq!(
        context.apply("{{ \"a {{ b\" }}"),
        Err(Error::Syntax("Template opens markup inside a string".to_owned()))
    );
    assert_eq!(
        context.apply("{{ \"\u{e9}\u{e9}\u{e9}\u{e9}\u{e9}\u{e9}\" }}{{ \" }}"),
        Err(Error::Syntax("Template holds markup behind a character outside ASCII on its line".to_owned()))
    );
    assert_eq!(context.apply("\u{e9}\n{{ surplus }} \u{e9}"), Ok("\u{e9}\n3 \u{e9}".to_owned()));
    assert_eq!(context.apply("{{ \"\u{e9}\" | upcase }}"), Ok("\u{c9}".to_owned()));
    assert_eq!(context.apply("{{surplus}} wait.. {{cols}}"), Ok("3 wait.. 2".to_owned()));
    assert_eq!(context.apply("{\n \"a\": \"{{ surplus }}\",\n \"b\": {{- cols -}} \n}"), Ok("{\n \"a\": \"3\",\n \"b\":2}".to_owned()));
    assert_eq!(context.apply("{{ \"| plus .. 1234567890123456789\" | size }}"), Ok("29".to_owned()));
    assert!(matches!(context.apply("{{ 'a }} {{ surplus | upcase }}"), Err(Error::Syntax(_))));
    assert!(matches!(context.apply("x\n{{ y | append: ' \" }}{{ ' }}"), Err(Error::Syntax(_))));
    assert!(matches!(context.apply("{{ surplus }}{{ | }}"), Err(Error::Syntax(_))));
    for broken in [
        "{{ \"\u{e9}\u{e9}\u{e9}\u{e9}\u{e9}\u{e9}\" }}\n{{- \" }}",
        "{{ \"\u{e9}\u{e9}\u{e9}\u{e9}\u{e9}\u{e9}\" }} \n \n {%- if \" %}",
        "{{ surplus }}{{ ! }}",
        "a\n{{ surplus }} {{ ! }} b\n{{ cols }}",
        "{{ 'a' }}\n{{ \"b }}",
        "\u{e9}\u{e9}\u{e9}\n{{ ! }}",
        "{{ surplus }}\n \t{{- ! }}",
        "{% if surplus %}\n{{ surplus }}\n{% else %}{{ ' }}{% endif %}",
        "{% for c in surplus %}{{ c }}",
        "{% endif %}",
        "{{ surplus | append }}",
        "{{ surplus. . }}x",
        "{{{ surplus }}",
        "{{ surplus }}}}{%",
    ] {
        assert!(matches!(context.apply(broken), Err(Error::Syntax(_))), "{}", broken);
    }
    assert_eq!(context.apply("{%- if surplus == 3 -%} yes {%- endif -%}"), Ok("yes".to_owned()));
    assert_eq!(context.apply("{{ surplus }} {{ cols }}"), Ok("3 2".to_owned()));
    assert_eq!(context.apply("{{ 'plus' | upcase }}"), Ok("PLUS".to_owned()));
    assert_eq!(context.apply("a | plus b.. {{ surplus }} | times .. tablerow cols"), Ok("a | plus b.. 3 | times .. tablerow cols".to_owned()));
    assert_eq!(context.apply("1234567890123456789 {{ surplus }} 1234567890123456789"), Ok("1234567890123456789 3 1234567890123456789".to_owned()));
    assert_eq!(context.apply("modulo and divided_by"), Ok("modulo and divided_by".to_owned()));
    assert_eq!(
        context.apply("{\"ts\": 17000000000000000001234567890, \"x\": \"} } { % { {\"}"),
        Ok("{\"ts\": 17000000000000000001234567890, \"x\": \"} } { % { {\"}".to_owned())
    );
    assert_eq!(context.apply(""), Ok(String::new()));
    assert!(matches!(context.apply("{%"), Err(Error::Syntax(_))));
    assert!(matches!(context.apply("{{"), Err(Error::Syntax(_))));
    assert_eq!(context.apply("{{ 6 | at_least: 7 }}"), Ok("7".to_owned()));
    assert_eq!(context.apply("{{ \"a,b\" | split: \",\" | last }}"), Ok("b".to_owned()));
    assert_eq!(context.apply("{% if x < 0 %}neg{% else %}pos{% endif %}"), Ok("neg".to_owned()));
    assert_eq!(
        context.apply("{% assign parts = \"a,b\" | split: \",\" %}{% for c in parts %}{{ c }}{% endfor %}"),
        Ok("ab".to_owned())
    );
}

fn render_every(pieces: &[&str], length: usize, context: &pipeline_engine::app::context::Context) -> usize {
    let mut count = 0;
    let mut places = vec![0usize; length];
    loop {
        let text: String = places.iter().map(|place| pieces[*place]).collect();
        match context.apply(&text) {
            Ok(_) | Err(Error::Syntax(_)) => count += 1,
            Err(other) => panic!("{:?} for {:?}", other, text),
        }
        let mut at = 0;
        while at < length && places[at] + 1 == pieces.len() {
            places[at] = 0;
            at += 1;
        }
        if at == length {
            return count;
        }
        places[at] += 1;
    }
}

#[test]
fn every_short_text_renders_or_is_refused() {
    let context = ContextPool::with_vars(Object::of(vec![("x".to_owned(), CaptureValue::string("v"))])).default_context();
    let pieces = ["{{", "}}", "{%", "%}", "'", "\"", "\n", " ", "x", "|", "upcase", "if ", "endif", "\u{e9}", "-", "1"];
    assert_eq!(render_every(&pieces, 4, &context), 16 * 16 * 16 * 16);
    let fewer = ["{{", "}}", "{%", "%}", "'", "\n", " endif ", " if x ", "{{ ' }}"];
    assert_eq!(render_every(&fewer, 5, &context), 59_049);
}

#[test]
fn every_short_text_with_dashes_renders_or_is_refused() {
    let context = ContextPool::with_vars(Object::of(vec![("x".to_owned(), CaptureValue::string("v"))])).default_context();
    let pieces = ["{{-", "{%-", "}}", "%}", "\"", "\n", " ", "\u{e9}", "x", "{{ \"\u{e9}\u{e9}\" }}", " if x "];
    assert_eq!(render_every(&pieces, 4, &context), 14_641);
    let fewer = ["{{-", "{%-", "}}", "\"", "\n", " ", "\u{e9}", "{{ \"\u{e9}\u{e9}\" }}"];
    assert_eq!(render_every(&fewer, 5, &context), 32_768);
}

#[test]
fn every_short_text_with_strings_renders_or_is_refused() {
    let context = ContextPool::with_vars(Object::of(vec![("x".to_owned(), CaptureValue::string("v"))])).default_context();
    let longer = ["{{- ", "{{ ", " }}", "' ", "\n", "\r\n", "\u{e9}\u{e9}\u{e9}", "x | append: '", "| upcase "];
    assert_eq!(render_every(&longer, 5, &context), 59_049);
    let fewer = ["{{- ", " }}", "' ", "\n", "\u{e9}\u{e9}\u{e9}", "x | append: '"];
    assert_eq!(render_every(&fewer, 6, &context), 46_656);
}

#[test]
fn every_short_selector_captures_or_is_refused() {
    let pieces = [
        "$", ".", "..", "a", "1", "*", "[", "]", ":", "[?(", ")]", "@", " == ", "<", ">", "'a'", "1.5", " != ",
    ];
    let document = "{\"a\": [{\"a\": 1, \"b\": \"a\"}, {\"a\": 1.5}, [1, \"a\"]], \"1\": {\"a\": \"a\"}}";
    let mut places = vec![0usize; 3];
    let mut usable = 0;
    loop {
        let tail: String = places.iter().map(|place| pieces[*place]).collect();
        for head in ["$", "$.a", "$.a[?(@.a", "$.a[?($.a"] {
            let selector = format!("{}{}", head, tail);
            if Capture::json(&selector).is_ok() {
                usable += 1;
            }
            assert_eq!(capture_json(&selector, document), capture_json(&selector, document), "{}", selector);
        }
        let mut at = 0;
        while at < places.len() && places[at] + 1 == pieces.len() {
            places[at] = 0;
            at += 1;
        }
        if at == places.len() {
            break;
        }
        places[at] += 1;
    }
    assert!(usable > 50, "{}", usable);
}

fn renders_or_reports(context: &pipeline_engine::app::context::Context, text: &str) -> bool {
    match context.apply(text) {
        Ok(_) => true,
        Err(Error::Syntax(message)) => {
            assert!(!message.starts_with("Template "), "{} for {}", message, text);
            false
        }
        Err(other) => panic!("{:?} for {}", other, text),
    }
}

#[test]
fn every_allowed_filter_and_tag_is_handed_on() {
    let inner = Object::of(vec![("k".to_owned(), CaptureValue::integer(i64::MIN)), ("s".to_owned(), CaptureValue::string("v"))]);
    let list = CaptureValue::Array(vec![
        CaptureValue::integer(i64::MAX),
        CaptureValue::Nil,
        CaptureValue::string("b a"),
        CaptureValue::float_bits(f64::NAN.to_bits()),
        CaptureValue::Object(Object::of(vec![("k".to_owned(), CaptureValue::boolean(true))])),
        CaptureValue::Array(vec![]),
    ]);
    let context = ContextPool::with_vars(Object::of(vec![
        ("s".to_owned(), CaptureValue::string("a \u{e9}%2\u{1f600} &amp;<b>&\u{e9}lt; b,c\n")),
        ("n".to_owned(), CaptureValue::integer(i64::MIN)),
        ("f".to_owned(), CaptureValue::float_bits(f64::INFINITY.to_bits())),
        ("t".to_owned(), CaptureValue::boolean(true)),
        ("list".to_owned(), list),
        ("obj".to_owned(), CaptureValue::Object(inner)),
        ("none".to_owned(), CaptureValue::Nil),
    ]))
    .default_context();
    let values = ["s", "n", "f", "t", "list", "obj", "none", "'%'", "''", "-1", "999999999999999999", "1.5", "list[-7]", "obj.k", "list.first"];
    let filters = [
        "downcase", "upcase", "capitalize", "strip", "lstrip", "rstrip", "strip_newlines", "replace", "replace_first",
        "remove", "remove_first", "append", "prepend", "split", "join", "first", "last", "reverse", "uniq", "compact",
        "concat", "map", "where", "size", "default", "url_encode", "url_decode", "truncate", "truncatewords",
        "at_least", "at_most", "ceil", "floor", "round", "escape", "escape_once", "strip_html", "newline_to_br",
        "sort_natural",
    ];
    let arguments = ["", ": s", ": n", ": list", ": obj", ": none", ": ''", ": 'k'", ": -1", ": 0", ": 999999999999999999", ": 3, ''", ": 'k', true", ": 2, s", ": f"];
    let mut rendered = 0;
    for value in values {
        for filter in filters {
            for argument in arguments {
                for text in [
                    format!("{{{{ {} | {}{} }}}}", value, filter, argument),
                    format!("{{{{ {} | {}{} | size | append: s | {} }}}}", value, filter, argument, filter),
                    format!("{{% assign y = {} | {}{} %}}{{% for i in y limit: 2 offset: n %}}{{{{ i }}}}{{% endfor %}}", value, filter, argument),
                    format!("{{% if {} contains s or y < {} %}}{{{{ y | {}{} }}}}{{% endif %}}", value, value, filter, argument),
                ] {
                    if renders_or_reports(&context, &text) {
                        rendered += 1;
                    }
                }
            }
        }
    }
    assert!(rendered > 2000, "{}", rendered);
    let operators = ["==", "!=", "<>", "<", ">", "<=", ">=", "contains"];
    for first in values {
        for second in values {
            for operator in operators {
                for text in [
                    format!("{{% if {} {} {} %}}a{{% elsif {} %}}b{{% else %}}c{{% endif %}}", first, operator, second, second),
                    format!("{{% unless {} {} {} and {} %}}a{{% endunless %}}", first, operator, second, first),
                    format!("{{% case {} %}}{{% when {}, {} %}}a{{% else %}}b{{% endcase %}}", first, second, first),
                    format!("{{% for i in {} reversed limit: {} %}}{{{{ forloop.index }}}}{{% break %}}{{% else %}}{{% continue %}}{{% endfor %}}", first, second),
                    format!("{{% capture y %}}{{{{ {} }}}}{{% endcapture %}}{{{{ y[{}] }}}}{{{{ {}[{}] }}}}", first, second, first, second),
                ] {
                    renders_or_reports(&context, &text);
                }
            }
        }
    }
}
