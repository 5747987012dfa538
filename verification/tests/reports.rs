use pipeline_engine::app::capture::parse_json;
use pipeline_engine::app::error::Error;
use pipeline_engine::app::json::Json;
use pipeline_engine::reporter::allure::model::attachment::Attachment;
use pipeline_engine::reporter::allure::model::label::Label;
use pipeline_engine::reporter::allure::model::link::{Link, LinkType};
use pipeline_engine::reporter::allure::model::parameter::Parameter;
use pipeline_engine::reporter::allure::model::stage::Stage;
use pipeline_engine::reporter::allure::model::status::{Status, StatusDetails};
use pipeline_engine::reporter::allure::model::test_result::{ExecutableItem, TestResult};
use pipeline_engine::reporter::serialize::file_name;

fn step(name: &str, status: Status) -> ExecutableItem {
    ExecutableItem::builder()
        .name(name.to_owned())
        .status(status)
        .status_details(StatusDetails::from("details".to_owned()))
        .start(10)
        .stop(20)
        .build()
        .unwrap()
}

#[test]
fn a_record_is_written_field_by_field() {
    let item = ExecutableItem {
        name: "job".to_owned(),
        status: Status::Passed,
        status_details: StatusDetails { message: "fine".to_owned(), trace: Some("trace".to_owned()) },
        stage: Stage::Finished,
        description: "what".to_owned(),
        description_html: Some("<b>what</b>".to_owned()),
        steps: vec![step("first", Status::Failed)],
        attachments: vec![Attachment {
            name: "log".to_owned(),
            media_type: "text/plain".to_owned(),
            source: "log.txt".to_owned(),
        }],
        parameters: vec![Parameter { name: "p".to_owned(), value: "v".to_owned(), hidden: false, excluded: true }],
        start: 1,
        stop: 2,
    };
    let result = TestResult {
        item,
        uuid: 0x0123456789abcdef0123456789abcdef,
        history_id: Some(1),
        full_name: "full".to_owned(),
        test_case_id: 2,
        rerun_of: Some(0xffffffffffffffffffffffffffffffff),
        labels: vec![Label::Language("English".to_owned()), Label::Suite("probe".to_owned()), Label::AsId, Label::TestMethod],
        links: vec![Link { name: "l".to_owned(), url: "http://x".to_owned(), kind: LinkType::Tms }],
    };
    let expected = "{\"name\":\"job\",\"status\":\"passed\",\"statusDetails\":{\"message\":\"fine\",\"trace\":\"trace\"},\
        \"stage\":\"finished\",\"description\":\"what\",\"descriptionHtml\":\"<b>what</b>\",\
        \"steps\":[{\"name\":\"first\",\"status\":\"failed\",\"statusDetails\":{\"message\":\"details\"},\
        \"stage\":\"finished\",\"description\":\"\",\"steps\":[],\"attachments\":[],\"parameters\":[],\"start\":10,\"stop\":20}],\
        \"attachments\":[{\"name\":\"log\",\"type\":\"text/plain\",\"source\":\"log.txt\"}],\
        \"parameters\":[{\"name\":\"p\",\"value\":\"v\",\"hidden\":false,\"excluded\":true}],\
        \"start\":1,\"stop\":2,\
        \"uuid\":\"01234567-89ab-cdef-0123-456789abcdef\",\"historyId\":\"00000000-0000-0000-0000-000000000001\",\
        \"fullName\":\"full\",\"testCaseId\":\"00000000-0000-0000-0000-000000000002\",\
        \"rerunOf\":\"ffffffff-ffff-ffff-ffff-ffffffffffff\",\
        \"labels\":[{\"name\":\"LANGUAGE\",\"value\":\"English\"},{\"name\":\"SUITE\",\"value\":\"probe\"},\
        {\"name\":\"AS_ID\"},{\"name\":\"TEST_METHOD\"}],\
        \"links\":[{\"name\":\"l\",\"url\":\"http://x\",\"type\":\"tms\"}]}";
    let written = result.to_json().unwrap();
    let members = match &written {
        Json::Object(members) => members.iter().map(|member| member.0.as_str()).collect::<Vec<&str>>(),
        _ => panic!("a record is an object"),
    };
    assert_eq!(
        members,
        vec![
            "name", "status", "statusDetails", "stage", "description", "descriptionHtml", "steps", "attachments",
            "parameters", "start", "stop", "uuid", "historyId", "fullName", "testCaseId", "rerunOf", "labels", "links",
        ]
    );
    assert_eq!(sorted(&written), sorted(&parse_json(expected).unwrap()));
}

fn sorted(json: &Json) -> Json {
    match json {
        Json::Array(items) => Json::Array(items.iter().map(sorted).collect()),
        Json::Object(members) => {
            let mut members: Vec<(String, Json)> =
                members.iter().map(|member| (member.0.clone(), sorted(&member.1))).collect();
            members.sort_by(|a, b| a.0.cmp(&b.0));
            Json::Object(members)
        }
        Json::Null => Json::Null,
        Json::Bool(b) => Json::Bool(*b),
        Json::Integer(i) => Json::Integer(*i),
        Json::Float(bits) => Json::Float(*bits),
        Json::Text(text) => Json::Text(text.clone()),
    }
}

#[test]
fn parts_that_are_not_there_are_left_out() {
    let result = TestResult::builder()
        .item(step("only", Status::Broken))
        .uuid(3)
        .full_name("n".to_owned())
        .test_case_id(4)
        .build()
        .unwrap();
    assert_eq!(result.uuid(), 3);
    let members = match result.to_json().unwrap() {
        Json::Object(members) => members.into_iter().map(|member| member.0).collect::<Vec<String>>(),
        _ => panic!("a record is an object"),
    };
    assert_eq!(
        members,
        vec![
            "name", "status", "statusDetails", "stage", "description", "steps", "attachments", "parameters", "start",
            "stop", "uuid", "fullName", "testCaseId", "labels", "links",
        ]
    );
}

#[test]
fn times_beyond_the_signed_range_are_not_written() {
    let mut item = step("late", Status::Passed);
    item.stop = i64::MAX as u128;
    assert!(item.to_json().is_some());
    item.stop = i64::MAX as u128 + 1;
    assert!(item.to_json().is_none());
    let mut outer = step("outer", Status::Passed);
    outer.steps.push(item);
    assert!(outer.to_json().is_none());
}

#[test]
fn builders_name_the_first_missing_part() {
    assert_eq!(ExecutableItem::builder().build(), Err("`name` must be initialized".to_owned()));
    assert_eq!(
        ExecutableItem::builder().name("n".to_owned()).build(),
        Err("`status` must be initialized".to_owned())
    );
    assert_eq!(
        ExecutableItem::builder().name("n".to_owned()).status(Status::Passed).build(),
        Err("`status_details` must be initialized".to_owned())
    );
    let built = ExecutableItem::builder()
        .name("n".to_owned())
        .status(Status::Skipped)
        .status_details(StatusDetails::default())
        .stop(2)
        .start(1)
        .stage(Stage::Running)
        .build()
        .unwrap();
    assert_eq!(built.stage, Stage::Running);
    assert_eq!(built.description, "");
    assert_eq!((built.start, built.stop), (1, 2));
    assert_eq!(TestResult::builder().build(), Err("`item` must be initialized".to_owned()));
    assert_eq!(
        TestResult::builder().item(step("s", Status::Passed)).uuid(1).full_name("f".to_owned()).build(),
        Err("`test_case_id` must be initialized".to_owned())
    );
}

#[test]
fn statuses_rank_and_name() {
    assert_eq!(Status::Passed.worse(Status::Failed), Status::Failed);
    assert_eq!(Status::Failed.worse(Status::Broken), Status::Broken);
    assert_eq!(Status::Broken.worse(Status::Failed), Status::Broken);
    assert_eq!(Status::Passed.worse(Status::Skipped), Status::Passed);
    assert_eq!(Status::Skipped.worse(Status::Passed), Status::Skipped);
    assert_eq!(Status::Broken.name(), "broken");
    assert_eq!(Status::Skipped.name(), "skipped");
    assert_eq!(Stage::Interrupted.name(), "interrupted");
    assert_eq!(Stage::Scheduled.name(), "scheduled");
    assert_eq!(LinkType::Issue.name(), "issue");
    assert_eq!(Label::ParentSuite.name(), "PARENT_SUITE");
    assert_eq!(Label::Suite("s".to_owned()).value(), Some("s"));
    assert_eq!(Label::Epic.value(), None);
}

#[test]
fn records_are_filed_under_their_identifier() {
    assert_eq!(file_name(0), "00000000-0000-0000-0000-000000000000-result.json");
    assert_eq!(
        file_name(0x936da01f9abd4d9d80c702af85c822a8),
        "936da01f-9abd-4d9d-80c7-02af85c822a8-result.json"
    );
}

#[test]
fn errors_show_their_text() {
    let rule = "~".repeat(79);
    for error in [
        Error::AssertionFailed("m".to_owned()),
        Error::ValueNotFound("m".to_owned()),
        Error::Connection("m".to_owned()),
        Error::Syntax("m".to_owned()),
        Error::Internal("m".to_owned()),
        Error::IncorrectValueType("m".to_owned()),
    ] {
        assert_eq!(error.to_string(), "m");
        assert_eq!(error.description(), "m");
        assert_eq!(error.debug_string(), format!("Syntax(\n{}\nm\n{}\n)", rule, rule));
    }
}

#[test]
fn a_document_is_written_without_space_and_in_order() {
    let document = Json::Object(vec![
        ("b".to_owned(), Json::Array(vec![Json::Integer(-7), Json::Null, Json::Bool(true), Json::Bool(false)])),
        ("a \"quoted\"\n".to_owned(), Json::Text("t\\ \u{1} \u{e9}".to_owned())),
        ("f".to_owned(), Json::Array(vec![Json::Float(1.5f64.to_bits()), Json::Float(f64::NAN.to_bits())])),
        ("none".to_owned(), Json::Object(vec![])),
        ("one".to_owned(), Json::Array(vec![Json::Array(vec![])])),
    ]);
    assert_eq!(
        document.written(),
        "{\"b\":[-7,null,true,false],\"a \\\"quoted\\\"\\n\":\"t\\\\ \\u0001 \u{e9}\",\"f\":[1.5,null],\"none\":{},\"one\":[[]]}"
    );
    assert_eq!(Json::Integer(i64::MIN).written(), "-9223372036854775808");
    assert_eq!(Json::Float(1e21f64.to_bits()).written(), "1e+21");
    let record = step("s", Status::Passed).to_json().unwrap().written();
    assert!(record.starts_with("{\"name\":\"s\",\"status\":\"passed\","), "{}", record);
    assert!(record.ends_with(",\"start\":10,\"stop\":20}"), "{}", record);
}
