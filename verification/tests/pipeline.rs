use std::sync::{Arc, Mutex};

use pipeline_engine::app::assertion::{AssertFunction, Assertion, Variable};
use pipeline_engine::app::capture::{Capture, CaptureEntry, Convert};
use pipeline_engine::app::context::{project, rendering, Context, ContextPool, RecordSource};
use pipeline_engine::app::error::Error;
use pipeline_engine::app::executor::{ExecutionResponse, JobExecutionHooks, JobGroup, RunInfo};
use pipeline_engine::app::job::{headers_value, package, HttpJob, PreparedRequest, Response, SendMessage};
use pipeline_engine::app::operation::{Arithmetic, Effect, Number, Operation};
use pipeline_engine::app::scheduler::{
    evaluate, roll_up, settle, status_of, step_of, Drain, Event, GroupRun, Handling,
};
use pipeline_engine::app::value::{CaptureValue, Object};
use pipeline_engine::app::{reversed, App};
use pipeline_engine::configuration::command_line::{LogLevel, Opt};
use pipeline_engine::configuration::manifest::{
    default_repeats, file_path, split, BodyEntry, JobType, Manifest, Pipeline, PipelineEntry, Resource,
    ResourceType,
};
use pipeline_engine::reporter::allure::model::label::Label;
use pipeline_engine::reporter::allure::model::status::{Status, StatusDetails};
use pipeline_engine::reporter::allure::model::test_result::{ExecutableItem, TestResult};
use pipeline_engine::time::timeunit::Duration;

fn no_fractions(_: Arithmetic, _: Number, _: Number) -> u64 {
    panic!("no step on fractional numbers is due")
}

struct Stub {
    seen: Mutex<Vec<PreparedRequest>>,
    answers: Mutex<Vec<Result<Response, String>>>,
}

impl Stub {
    fn answering(answers: Vec<Result<Response, String>>) -> Arc<Stub> {
        Arc::new(Stub { seen: Mutex::new(Vec::new()), answers: Mutex::new(answers) })
    }

    fn with_body(body: &str, times: usize) -> Arc<Stub> {
        Stub::answering((0..times).map(|_| Ok(response(body))).collect())
    }

    fn uris(&self) -> Vec<String> {
        self.seen.lock().unwrap().iter().map(|request| request.uri.clone()).collect()
    }
}

impl SendMessage for Stub {
    fn send(&self, request: PreparedRequest) -> Result<Response, String> {
        self.seen.lock().unwrap().push(request);
        self.answers.lock().unwrap().remove(0)
    }
}

fn response(body: &str) -> Response {
    Response {
        status: 200,
        headers: vec![("content-type".to_owned(), b"application/json".to_vec())],
        body: body.as_bytes().to_vec(),
    }
}

fn entry(name: &str, request: &str) -> PipelineEntry {
    PipelineEntry {
        before: None,
        after: None,
        name: name.to_owned(),
        job_type: JobType::Http {
            request: request.to_owned(),
            method: "GET".to_owned(),
            body: None,
            headers: Vec::new(),
        },
        vars: Object::new(),
        capture: Vec::new(),
        on: Vec::new(),
        assertions: Vec::new(),
        delay: Duration::zero(),
        repeats: default_repeats(),
    }
}

fn manifest(groups: Vec<(&str, Vec<PipelineEntry>)>, vars: Object) -> Manifest {
    Manifest {
        name: "pipeline".to_owned(),
        collect: "http://collect".to_owned(),
        pipeline: Pipeline {
            before_all: None,
            after_all: None,
            groups: groups.into_iter().map(|(name, jobs)| (name.to_owned(), jobs)).collect(),
        },
        vars,
        resources: Vec::new(),
    }
}

fn run_group<T: SendMessage>(
    group: &JobGroup<HttpJob<T>>,
    pool: &mut ContextPool,
    tables: &dyn Fn() -> Vec<(String, RecordSource)>,
) -> (Vec<Event>, Vec<Effect>, Vec<Error>, Vec<u128>) {
    let mut run = GroupRun::new(group.name());
    let mut effects = Vec::new();
    let mut failures = Vec::new();
    let mut waits = Vec::new();
    for (job, info) in group.iter() {
        let mut local = pool.new_context(info.id, tables());
        run.begin_job();
        while let Some(delay) = run.pending(info) {
            waits.push(delay.nanos);
            let outcome = run.repeat(job, info, &mut local, &no_fractions).unwrap();
            failures.extend(outcome.response.err());
            for result in outcome.results {
                match result {
                    Ok(effect) => effects.push(effect),
                    Err(error) => failures.push(error),
                }
            }
            failures.extend(outcome.verdicts.into_iter().filter_map(Result::err));
        }
        pool.merge(local, &group.name());
    }
    (run.into_events(), effects, failures, waits)
}

fn records(events: Vec<Event>) -> Vec<TestResult> {
    events
        .into_iter()
        .filter_map(|event| match event {
            Event::Reported(record) => Some(record),
            Event::GroupFinished(_) => None,
        })
        .collect()
}

fn no_tables() -> Vec<(String, RecordSource)> {
    Vec::new()
}

fn equal_path(path: &str, value: CaptureValue) -> Assertion {
    Assertion {
        message: format!("{} is as expected", path),
        function: AssertFunction::Equal(Variable::Path(vec![path.to_owned()]), Variable::Value(value)),
    }
}

#[test]
fn simple_get_with_capture_and_assertion() {
    let mut job = entry("echo", "https://x/echo");
    job.capture = vec![CaptureEntry { cap: Capture::json("$.n").unwrap(), variable: "count".to_owned() }];
    job.assertions = vec![equal_path("count", CaptureValue::integer(1))];
    let stub = Stub::with_body("{\"n\":1}", 1);
    let app = App::new(manifest(vec![("probe", vec![job])], Object::new()), Vec::new(), stub.clone());
    let (name, groups, mut pool) = app.into_parts();
    assert_eq!(name, "pipeline");
    assert_eq!(groups.len(), 1);
    assert_eq!(groups[0].amount(), 1);
    let (events, effects, failures, _) = run_group(&groups[0], &mut pool, &no_tables);
    assert!(effects.is_empty());
    assert!(failures.is_empty());
    assert_eq!(events.len(), 2);
    assert!(matches!(&events[1], Event::GroupFinished(name) if name == "probe"));
    let records = records(events);
    assert_eq!(records.len(), 1);
    let record = &records[0];
    assert_eq!(record.item.steps.len(), 1);
    assert_eq!(record.item.steps[0].status, Status::Passed);
    assert_eq!(record.item.steps[0].name, "count is as expected");
    assert_eq!(record.item.status, Status::Passed);
    assert_eq!(record.item.name, "echo");
    assert_eq!(record.full_name, "echo");
    assert_eq!(record.rerun_of, None);
    assert_eq!(record.labels, vec![Label::Language("English".to_owned()), Label::Suite("probe".to_owned())]);
    assert!(record.item.start <= record.item.stop);
    assert!(record.item.start > 1_600_000_000_000);
    assert_eq!(stub.uris(), vec!["https://x/echo"]);
}

#[test]
fn the_address_is_rendered_over_the_variables() {
    let vars = Object::of(vec![("host".to_owned(), CaptureValue::string("example.com"))]);
    let stub = Stub::with_body("{}", 1);
    let app = App::new(
        manifest(vec![("g", vec![entry("ping", "https://{{host}}/ping")])], vars),
        Vec::new(),
        stub.clone(),
    );
    let (_, groups, mut pool) = app.into_parts();
    run_group(&groups[0], &mut pool, &no_tables);
    assert_eq!(stub.uris(), vec!["https://example.com/ping"]);
}

#[test]
fn a_job_repeats_as_often_as_it_asks() {
    let mut job = entry("thrice", "https://x");
    job.repeats = 3;
    job.delay = Duration::from_millis(50);
    let stub = Stub::with_body("{}", 3);
    let app = App::new(manifest(vec![("g", vec![job])], Object::new()), Vec::new(), stub.clone());
    let (_, groups, mut pool) = app.into_parts();
    let id = groups[0].iter()[0].1.id;
    let (events, _, _, waits) = run_group(&groups[0], &mut pool, &no_tables);
    assert_eq!(waits, vec![50_000_000, 50_000_000, 50_000_000]);
    let records = records(events);
    assert_eq!(records.len(), 3);
    assert_eq!(stub.uris().len(), 3);
    assert!(records.iter().all(|record| record.test_case_id == id));
    assert_eq!(records[0].rerun_of, None);
    assert_eq!(records[1].rerun_of, Some(records[0].uuid));
    assert_eq!(records[2].rerun_of, Some(records[0].uuid));
    assert_ne!(records[0].uuid, records[1].uuid);
    assert_ne!(records[1].uuid, records[2].uuid);
}

#[test]
fn a_job_run_to_its_end_has_a_record_for_each_repeat() {
    for repeats in [0u64, 1, 2, 5] {
        let info = RunInfo::with_id(9, "job".to_owned(), repeats, Duration::from_millis(3), vec![], vec![], vec![]);
        let stub = Stub::with_body("{}", repeats as usize);
        let job = HttpJob::new("https://x".to_owned(), "GET".to_owned(), vec![], None, stub.clone());
        let mut run = GroupRun::new("g".to_owned());
        let mut context = ContextPool::new().default_context();
        let paused = Mutex::new(Vec::new());
        let outcomes = run.run_job(&job, &info, &mut context, &|delay: Duration| paused.lock().unwrap().push(delay.nanos), &no_fractions);
        assert_eq!(outcomes.map(|outcomes| outcomes.len()), Ok(repeats as usize));
        assert_eq!(paused.lock().unwrap().len(), repeats as usize);
        assert!(paused.lock().unwrap().iter().all(|nanos| *nanos == 3_000_000));
        assert_eq!(run.pending(&info), None);
        assert_eq!(stub.uris().len(), repeats as usize);
        let records = records(run.into_events());
        assert_eq!(records.len(), repeats as usize);
        assert!(records.iter().all(|record| record.test_case_id == 9));
        assert!(records.iter().skip(1).all(|record| record.rerun_of == Some(records[0].uuid)));
    }
}

#[test]
fn no_repeat_runs_once_none_is_due() {
    let info = RunInfo::with_id(7, "job".to_owned(), 0, Duration::zero(), vec![], vec![], vec![]);
    let stub = Stub::with_body("{}", 0);
    let job = HttpJob::new("https://x".to_owned(), "GET".to_owned(), vec![], None, stub.clone());
    let mut run = GroupRun::new("g".to_owned());
    let mut context = ContextPool::new().default_context();
    run.begin_job();
    assert_eq!(run.pending(&info), None);
    let outcome = run.repeat(&job, &info, &mut context, &no_fractions).unwrap();
    assert!(outcome.results.is_empty());
    assert!(outcome.verdicts.is_empty());
    assert_eq!(outcome.response, Ok(Vec::new()));
    assert!(stub.uris().is_empty());
    let events = run.into_events();
    assert_eq!(events.len(), 1);
}

#[test]
fn rows_of_a_table_feed_the_repeats() {
    let mut job = entry("users", "/users/{{users.id}}");
    job.repeats = 3;
    let stub = Stub::with_body("{}", 3);
    let app = App::new(manifest(vec![("g", vec![job])], Object::new()), Vec::new(), stub.clone());
    let (_, groups, mut pool) = app.into_parts();
    let tables = || {
        vec![(
            "users".to_owned(),
            RecordSource {
                headers: vec!["id".to_owned(), "name".to_owned()],
                rows: vec![Some(vec!["1".to_owned(), "a".to_owned()]), Some(vec!["2".to_owned(), "b".to_owned()])],
                position: 0,
            },
        )]
    };
    run_group(&groups[0], &mut pool, &tables);
    assert_eq!(stub.uris(), vec!["/users/1", "/users/2", "/users/2"]);
}

#[test]
fn tables_advance_row_by_row() {
    let pool = ContextPool::with_vars(Object::of(vec![("kept".to_owned(), CaptureValue::integer(1))]));
    let table = RecordSource {
        headers: vec!["a".to_owned(), "b".to_owned(), "c".to_owned()],
        rows: vec![Some(vec!["1".to_owned(), "2".to_owned()]), None, Some(vec!["x".to_owned(), "y".to_owned(), "z".to_owned(), "more".to_owned()])],
        position: 0,
    };
    let empty = RecordSource { headers: vec!["h".to_owned()], rows: vec![], position: 0 };
    let mut context = pool.new_context(0, vec![("t".to_owned(), table), ("e".to_owned(), empty)]);
    let row = |cells: &[(&str, &str)]| {
        CaptureValue::Object(Object::of(cells.iter().map(|(k, v)| (k.to_string(), CaptureValue::string(v))).collect()))
    };
    assert_eq!(context.next(), vec!["e".to_owned()]);
    assert_eq!(context.variables().get("t"), Some(&row(&[("a", "1"), ("b", "2")])));
    assert_eq!(context.variables().get("e"), None);
    assert_eq!(context.variables().get("kept"), Some(&CaptureValue::integer(1)));
    assert_eq!(context.next(), vec!["t".to_owned(), "e".to_owned()]);
    assert_eq!(context.variables().get("t"), Some(&row(&[("a", "1"), ("b", "2")])));
    assert_eq!(context.next(), vec!["e".to_owned()]);
    assert_eq!(context.variables().get("t"), Some(&row(&[("a", "x"), ("b", "y"), ("c", "z")])));
    assert_eq!(context.next(), vec!["t".to_owned(), "e".to_owned()]);
    assert_eq!(context.variables().get("t"), Some(&row(&[("a", "x"), ("b", "y"), ("c", "z")])));
    assert_eq!(
        project(&vec!["k".to_owned(), "k".to_owned()], &vec!["1".to_owned(), "2".to_owned()]),
        row(&[("k", "2")])
    );
}

#[test]
fn an_operation_feeds_back_and_is_merged() {
    let mut job = entry("count", "https://x");
    job.capture = vec![CaptureEntry { cap: Capture::json("$.n").unwrap(), variable: "count".to_owned() }];
    job.on = vec![
        Operation::Add("count".to_owned(), CaptureValue::integer(1)),
        Operation::Console("count is {{count}}".to_owned()),
        Operation::Add("absent".to_owned(), CaptureValue::integer(1)),
    ];
    job.assertions = vec![equal_path("count", CaptureValue::integer(42))];
    let stub = Stub::with_body("{\"n\":41}", 1);
    let vars = Object::of(vec![("base".to_owned(), CaptureValue::string("b"))]);
    let app = App::new(manifest(vec![("group", vec![job])], vars), Vec::new(), stub);
    let (_, groups, mut pool) = app.into_parts();
    let (events, effects, failures, _) = run_group(&groups[0], &mut pool, &no_tables);
    assert_eq!(effects, vec![Effect::Nothing, Effect::Line("count is 42".to_owned())]);
    assert_eq!(failures, vec![Error::ValueNotFound("Value not found".to_owned())]);
    assert_eq!(records(events)[0].item.steps[0].status, Status::Passed);
    let merged = pool.default_context();
    let expected = CaptureValue::Object(Object::of(vec![
        ("base".to_owned(), CaptureValue::string("b")),
        ("count".to_owned(), CaptureValue::integer(42)),
    ]));
    assert_eq!(merged.variables().get("group"), Some(&expected));
    assert_eq!(
        merged.find_path(&vec!["group".to_owned(), "count".to_owned()]),
        Some(CaptureValue::integer(42))
    );
    assert_eq!(merged.variables().get("base"), Some(&CaptureValue::string("b")));
}

#[test]
fn the_last_merge_of_a_group_is_what_the_pool_shows() {
    let mut pool = ContextPool::new();
    let context_of = |pool: &ContextPool, value: i64| {
        let mut context = pool.default_context();
        context.set("v".to_owned(), CaptureValue::integer(value));
        context
    };
    let first = context_of(&pool, 1);
    let other = context_of(&pool, 2);
    let last = context_of(&pool, 3);
    pool.merge(first, "g");
    pool.merge(other, "h");
    pool.merge(last, "g");
    let seen = pool.default_context();
    let object = |value: i64| {
        CaptureValue::Object(Object::of(vec![("v".to_owned(), CaptureValue::integer(value))]))
    };
    assert_eq!(seen.variables().get("g"), Some(&object(3)));
    assert_eq!(seen.variables().get("h"), Some(&object(2)));
    assert_eq!(seen.variables().len(), 2);
}

#[test]
fn the_variables_of_a_run_are_set_over_the_globals() {
    let mut pool = ContextPool::with_vars(Object::of(vec![("a".to_owned(), CaptureValue::integer(1)), ("b".to_owned(), CaptureValue::integer(2))]));
    pool.push_contextual_vars(
        Object::of(vec![("b".to_owned(), CaptureValue::integer(20)), ("c".to_owned(), CaptureValue::integer(30))]),
        7,
    );
    pool.push_contextual_vars(Object::of(vec![("z".to_owned(), CaptureValue::Nil)]), 8);
    pool.push_resource_file("users".to_owned(), "users.csv".to_owned());
    assert_eq!(pool.resource_files(), &vec![("users".to_owned(), "users.csv".to_owned())]);
    pool.push_resource_file("towns".to_owned(), "towns.csv".to_owned());
    pool.push_resource_file("users".to_owned(), "people.csv".to_owned());
    assert_eq!(
        pool.resource_files(),
        &vec![("users".to_owned(), "people.csv".to_owned()), ("towns".to_owned(), "towns.csv".to_owned())]
    );
    pool.push_contextual_vars(Object::of(vec![("old".to_owned(), CaptureValue::Nil)]), 10);
    pool.push_contextual_vars(Object::of(vec![("new".to_owned(), CaptureValue::Nil)]), 10);
    assert_eq!(pool.new_context(10, Vec::new()).variables().get("old"), None);
    assert_eq!(pool.new_context(10, Vec::new()).variables().get("new"), Some(&CaptureValue::Nil));
    let context = pool.new_context(7, Vec::new());
    assert_eq!(
        context.variables().entries(),
        &vec![
            ("a".to_owned(), CaptureValue::integer(1)),
            ("b".to_owned(), CaptureValue::integer(20)),
            ("c".to_owned(), CaptureValue::integer(30)),
        ]
    );
    assert_eq!(pool.new_context(9, Vec::new()).variables().len(), 2);
    pool.push_contextual_vars(Object::new(), 7);
    assert_eq!(pool.new_context(7, Vec::new()).variables().len(), 2);
    let mut local = pool.new_context(8, Vec::new());
    local.push_vars(&Object::of(vec![("a".to_owned(), CaptureValue::integer(5))]));
    assert_eq!(local.find_path(&vec!["a".to_owned()]), Some(CaptureValue::integer(5)));
    assert_eq!(local.find_path(&vec!["nope".to_owned()]), None);
    assert!(matches!(local.find_path(&vec![]), Some(CaptureValue::Object(_))));
}

#[test]
fn only_the_groups_asked_for_run() {
    let groups = vec![
        ("a", vec![entry("one", "https://a/1"), entry("two", "https://a/2")]),
        ("b", vec![entry("three", "https://b")]),
        ("c", vec![]),
    ];
    let stub = Stub::with_body("{}", 2);
    let app = App::new(manifest(groups.clone(), Object::new()), vec!["a".to_owned()], stub.clone());
    let (_, kept, mut pool) = app.into_parts();
    assert_eq!(kept.iter().map(|group| group.name()).collect::<Vec<String>>(), vec!["a"]);
    let (events, _, _, _) = run_group(&kept[0], &mut pool, &no_tables);
    let records = records(events);
    assert_eq!(records.len(), 2);
    assert!(records.iter().all(|record| record.labels.contains(&Label::Suite("a".to_owned()))));
    assert_eq!(stub.uris(), vec!["https://a/1", "https://a/2"]);

    let all = App::new(manifest(groups.clone(), Object::new()), Vec::new(), Stub::with_body("", 0));
    let (_, kept, _) = all.into_parts();
    assert_eq!(kept.iter().map(|group| group.name()).collect::<Vec<String>>(), vec!["a", "b", "c"]);
    let some = App::new(
        manifest(groups, Object::new()),
        vec!["c".to_owned(), "x".to_owned(), "b".to_owned()],
        Stub::with_body("", 0),
    );
    let (_, kept, _) = some.into_parts();
    assert_eq!(kept.iter().map(|group| group.name()).collect::<Vec<String>>(), vec!["b", "c"]);
    assert_eq!(kept[0].amount(), 1);
    assert_eq!(reversed(vec![1, 2, 3]), vec![3, 2, 1]);
}

#[test]
fn a_failed_connection_still_gives_a_record() {
    let mut job = entry("down", "https://x");
    job.repeats = 2;
    job.capture = vec![CaptureEntry { cap: Capture::json("$.n").unwrap(), variable: "count".to_owned() }];
    job.on = vec![Operation::Console("never".to_owned())];
    job.assertions = vec![
        equal_path("count", CaptureValue::integer(1)),
        Assertion {
            message: "holds".to_owned(),
            function: AssertFunction::Equal(
                Variable::Value(CaptureValue::Nil),
                Variable::Value(CaptureValue::Nil),
            ),
        },
        Assertion {
            message: "differs".to_owned(),
            function: AssertFunction::NotEqual(
                Variable::Value(CaptureValue::Nil),
                Variable::Value(CaptureValue::Nil),
            ),
        },
    ];
    let stub = Stub::answering(vec![Err("refused".to_owned()), Ok(response("{\"n\":1}"))]);
    let app = App::new(manifest(vec![("g", vec![job])], Object::new()), Vec::new(), stub);
    let (_, groups, mut pool) = app.into_parts();
    let (events, effects, failures, _) = run_group(&groups[0], &mut pool, &no_tables);
    let records = records(events);
    assert_eq!(records.len(), 2);
    let statuses = |record: &TestResult| record.item.steps.iter().map(|step| step.status).collect::<Vec<Status>>();
    assert_eq!(statuses(&records[0]), vec![Status::Broken, Status::Passed, Status::Failed]);
    assert_eq!(records[0].item.status, Status::Broken);
    assert_eq!(statuses(&records[1]), vec![Status::Passed, Status::Passed, Status::Failed]);
    assert_eq!(records[1].item.status, Status::Failed);
    assert_eq!(effects, vec![Effect::Line("never".to_owned())]);
    assert_eq!(
        failures,
        vec![
            Error::Connection("refused".to_owned()),
            Error::AssertionFailed("Value not found".to_owned()),
        ]
    );
}

#[test]
fn what_a_job_hands_back_is_taken_into_the_context() {
    let info = RunInfo::with_id(
        1,
        "job".to_owned(),
        1,
        Duration::zero(),
        vec![CaptureEntry { cap: Capture::json("$.n").unwrap(), variable: "n".to_owned() }],
        vec![
            Operation::Mul("n".to_owned(), CaptureValue::integer(2)),
            Operation::Div("n".to_owned(), CaptureValue::integer(0)),
            Operation::PushCsv("n".to_owned(), "n.csv".to_owned()),
            Operation::Sub("gone".to_owned(), CaptureValue::integer(1)),
        ],
        vec![equal_path("n", CaptureValue::integer(42)), equal_path("m", CaptureValue::integer(1))],
    );
    let mut context = ContextPool::new().default_context();
    let body = ExecutionResponse::builder()
        .body(b"{\"n\": 21}".to_vec())
        .additional(Object::new())
        .execution_time(Duration::zero())
        .build()
        .unwrap();
    let settled = settle(&mut context, &info, Ok(body), &no_fractions).unwrap();
    assert_eq!(settled.response, Ok(b"{\"n\": 21}".to_vec()));
    assert_eq!(
        settled.results,
        vec![
            Ok(Effect::Nothing),
            Err(Error::Internal("Division by zero".to_owned())),
            Ok(Effect::Append { path: "n.csv".to_owned(), fresh: b"n\n42\n".to_vec(), existing: b"42\n".to_vec() }),
            Err(Error::ValueNotFound("Value not found".to_owned())),
        ]
    );
    assert_eq!(context.variables().entries(), &vec![("n".to_owned(), CaptureValue::integer(42))]);
    let (steps, verdicts) = evaluate(&context, &info.assertions).unwrap();
    assert_eq!(verdicts, vec![Ok(true), Err(Error::AssertionFailed("Value not found".to_owned()))]);
    assert_eq!(steps.iter().map(|step| step.status).collect::<Vec<Status>>(), vec![Status::Passed, Status::Broken]);
    assert_eq!(steps[0].name, "n is as expected");
    assert_eq!(steps[1].status_details, StatusDetails::from("Test step 2 message".to_owned()));

    let lost = settle(&mut context, &info, Err(Error::Connection("lost".to_owned())), &no_fractions).unwrap();
    assert_eq!(lost.response, Err(Error::Connection("lost".to_owned())));
    assert!(lost.results.is_empty());
    assert_eq!(context.variables().len(), 1);
    assert!(matches!(
        settle(&mut context, &info, Err(Error::Syntax("broken".to_owned())), &no_fractions),
        Err(Error::Syntax(message)) if message == "broken"
    ));
    let not_json = ExecutionResponse::builder()
        .body(vec![0xff])
        .additional(Object::new())
        .execution_time(Duration::zero())
        .build()
        .unwrap();
    let unset = settle(&mut context, &info, Ok(not_json), &no_fractions).unwrap();
    assert_eq!(unset.results[0], Err(Error::IncorrectValueType("nil".to_owned())));
    assert_eq!(context.variables().entries(), &vec![("n".to_owned(), CaptureValue::Nil)]);
}

#[test]
fn a_failed_connection_alone_fails_the_test() {
    let stub = Stub::answering(vec![Err("refused".to_owned())]);
    let app = App::new(manifest(vec![("g", vec![entry("down", "https://x")])], Object::new()), Vec::new(), stub);
    let (_, groups, mut pool) = app.into_parts();
    let (events, _, _, _) = run_group(&groups[0], &mut pool, &no_tables);
    assert_eq!(records(events)[0].item.status, Status::Failed);
}

#[test]
fn a_broken_template_ends_the_run() {
    let info = RunInfo::new("job".to_owned(), 1, Duration::zero(), vec![], vec![], vec![]);
    let stub = Stub::with_body("{}", 1);
    let job = HttpJob::new("https://{{ nowhere }}".to_owned(), "GET".to_owned(), vec![], None, stub.clone());
    let mut run = GroupRun::new("g".to_owned());
    let mut context = ContextPool::new().default_context();
    run.begin_job();
    assert!(matches!(run.repeat(&job, &info, &mut context, &no_fractions), Err(Error::Syntax(_))));
    assert!(stub.uris().is_empty());
    assert_eq!(run.pending(&info), Some(Duration::zero()));
    assert_eq!(run.into_events().len(), 1);
}

#[test]
fn requests_are_prepared_and_responses_packed() {
    let vars = Object::of(vec![("token".to_owned(), CaptureValue::string("secret"))]);
    let context = ContextPool::with_vars(vars).default_context();
    let stub = Stub::answering(vec![
        Ok(Response {
            status: 201,
            headers: vec![
                ("x-id".to_owned(), b"1".to_vec()),
                ("x-bad".to_owned(), vec![0xff]),
                ("x-id".to_owned(), b"2".to_vec()),
            ],
            body: b"done".to_vec(),
        }),
        Err("timeout".to_owned()),
    ]);
    let job = HttpJob::new(
        "https://x/{{token}}".to_owned(),
        "POST".to_owned(),
        vec![("Authorization".to_owned(), "Bearer {{token}}".to_owned())],
        Some(b"{\"t\":\"{{token}}\"}".to_vec()),
        stub.clone(),
    );
    let prepared = job.prepare(&context).unwrap();
    assert_eq!(
        prepared,
        PreparedRequest {
            uri: "https://x/secret".to_owned(),
            method: "POST".to_owned(),
            headers: vec![("Authorization".to_owned(), "Bearer secret".to_owned())],
            body: b"{\"t\":\"secret\"}".to_vec(),
        }
    );
    let answer = job.execute(&context).unwrap();
    assert_eq!(answer.body(), &b"done".to_vec());
    let headers = CaptureValue::Object(Object::of(vec![("x-id".to_owned(), CaptureValue::string("2"))]));
    assert_eq!(answer.additional().entries(), &vec![("headers".to_owned(), headers)]);
    assert!(matches!(job.execute(&context), Err(Error::Connection(message)) if message == "timeout"));
    let raw = HttpJob::new("u".to_owned(), "PUT".to_owned(), vec![], Some(vec![0xff, 0x00, 0x7b]), stub.clone());
    assert_eq!(raw.prepare(&context).unwrap().body, vec![0xff, 0x00, 0x7b]);
    let none = HttpJob::new("u".to_owned(), "GET".to_owned(), vec![], None, stub);
    assert_eq!(none.prepare(&context).unwrap().body, Vec::<u8>::new());
    let packed = package(Ok(response("b")), Duration::from_millis(5)).unwrap();
    assert_eq!(packed.execution_time(), Duration::from_millis(5));
    assert_eq!(packed.execution_time().as_millis(), 5);
    assert!(!packed.execution_time().is_zero());
    assert!(matches!(package(Err("e".to_owned()), Duration::zero()), Err(Error::Connection(m)) if m == "e"));
    assert_eq!(
        headers_value(&vec![("a".to_owned(), "ü".as_bytes().to_vec())]),
        vec![("a".to_owned(), "ü".as_bytes().to_vec())].convert()
    );
    let built = ExecutionResponse::builder()
        .body(vec![1])
        .additional(Object::new())
        .execution_time(Duration::zero())
        .build();
    assert_eq!(built.map(|response| response.body().clone()), Ok(vec![1]));
    assert_eq!(
        ExecutionResponse::builder().body(vec![1]).build().err(),
        Some("`additional` must be initialized".to_owned())
    );
    assert_eq!(rendering(Err("m".to_owned())), Err(Error::Syntax("m".to_owned())));
    assert_eq!(rendering(Ok("t".to_owned())), Ok("t".to_owned()));
}

#[test]
fn the_main_task_counts_the_groups_down() {
    let mut drain = Drain::new(2);
    assert!(drain.is_open());
    let record = TestResult::builder()
        .item(
            ExecutableItem::builder()
                .name("n".to_owned())
                .status(Status::Passed)
                .status_details(StatusDetails::default())
                .start(0)
                .stop(0)
                .build()
                .unwrap(),
        )
        .uuid(1)
        .full_name("n".to_owned())
        .test_case_id(2)
        .build()
        .unwrap();
    assert!(matches!(drain.on_event(Event::Reported(record)), Handling::Save(saved) if saved.uuid == 1));
    assert!(matches!(drain.on_event(Event::GroupFinished("a".to_owned())), Handling::Continue));
    assert!(matches!(drain.on_event(Event::GroupFinished("b".to_owned())), Handling::Stop));
    assert!(!drain.is_open());
    assert!(matches!(drain.on_event(Event::GroupFinished("c".to_owned())), Handling::Stop));
    assert!(matches!(Drain::new(0).on_event(Event::GroupFinished("c".to_owned())), Handling::Stop));
    assert_eq!(status_of(&Ok(true)), Status::Passed);
    assert_eq!(status_of(&Ok(false)), Status::Failed);
    assert_eq!(status_of(&Err(Error::Internal(String::new()))), Status::Broken);
    assert_eq!(roll_up(Status::Passed, &vec![]), Status::Passed);
}

#[test]
fn manifest_values_are_read() {
    assert_eq!(
        Variable::from_value(CaptureValue::string("{{a.b}}")),
        Variable::Template("{{a.b}}".to_owned())
    );
    assert_eq!(
        Variable::from_value(CaptureValue::string("a.b.c")),
        Variable::Path(vec!["a".to_owned(), "b".to_owned(), "c".to_owned()])
    );
    assert_eq!(Variable::from_value(CaptureValue::string("plain")), Variable::Value(CaptureValue::string("plain")));
    assert_eq!(Variable::from_value(CaptureValue::string("{a}")), Variable::Value(CaptureValue::string("{a}")));
    assert_eq!(Variable::from_value(CaptureValue::integer(4)), Variable::Value(CaptureValue::integer(4)));
    assert_eq!(
        Variable::from_value(CaptureValue::float_bits(4.5f64.to_bits())),
        Variable::Value(CaptureValue::float_bits(4.5f64.to_bits()))
    );
    assert_eq!(split(".a..b."), vec!["", "a", "", "b", ""]);
    assert_eq!(split(""), vec![""]);
    assert_eq!(split("é.ü"), vec!["é", "ü"]);
    assert_eq!(BodyEntry::Raw("text".to_owned()).into_bytes(None), Ok(b"text".to_vec()));
    assert_eq!(BodyEntry::Json("{\"a\":1}".to_owned()).into_bytes(None), Ok(b"{\"a\":1}".to_vec()));
    assert_eq!(BodyEntry::Base64("aGVsbG8=".to_owned()).into_bytes(None), Ok(b"hello".to_vec()));
    assert_eq!(
        BodyEntry::Base64("not base64!".to_owned()).into_bytes(None),
        Err(Error::Syntax("Body is not base64".to_owned()))
    );
    let file = BodyEntry::Uri("file://data/body.bin".to_owned());
    assert_eq!(file.source_file(), Some("data/body.bin".to_owned()));
    assert_eq!(file.clone().into_bytes(Some(vec![1, 2])), Ok(vec![1, 2]));
    assert_eq!(file.into_bytes(None), Err(Error::Internal("Body of a file was not read".to_owned())));
    assert_eq!(BodyEntry::Raw("file://x".to_owned()).source_file(), None);
    assert_eq!(file_path("http://data/body.bin"), None);
    assert_eq!(file_path("file://"), None);
    assert_eq!(file_path("file:///etc/hosts"), Some("/etc/hosts".to_owned()));
    let resource = Resource { kind: ResourceType::File("users.csv".to_owned()), name: "users".to_owned() };
    let mut with_resource = manifest(vec![], Object::new());
    with_resource.resources = vec![resource];
    let (_, _, pool) = App::new(with_resource, Vec::new(), Stub::with_body("", 0)).into_parts();
    assert_eq!(pool.resource_files(), &vec![("users".to_owned(), "users.csv".to_owned())]);
    let options = Opt { file: "m.yaml".to_owned(), logging: None, log_output_file: None, threads: None, groups: vec![] };
    assert_eq!(options.level(), LogLevel::Info);
    assert_eq!(LogLevel::Trace.filter(), 5);
    assert_eq!(LogLevel::Off.filter(), 0);
    assert_eq!(LogLevel::from_name("info"), Some(LogLevel::Info));
    assert_eq!(LogLevel::from_name("WARN"), Some(LogLevel::Warn));
    assert_eq!(LogLevel::from_name("TrAcE"), Some(LogLevel::Trace));
    assert_eq!(LogLevel::from_name("Off"), Some(LogLevel::Off));
    assert_eq!(LogLevel::from_name("error"), Some(LogLevel::Error));
    assert_eq!(LogLevel::from_name("debug"), Some(LogLevel::Debug));
    assert_eq!(LogLevel::from_name("verbose"), None);
    assert_eq!(LogLevel::from_name(""), None);
    assert_eq!(LogLevel::from_name("inf"), None);
    assert_eq!(LogLevel::from_name("\u{131}nfo"), None);
}

#[test]
fn a_context_is_not_shared_by_its_copies() {
    let pool = ContextPool::new();
    let mut first: Context = pool.default_context();
    let second: Context = pool.default_context();
    first.set("only".to_owned(), CaptureValue::integer(1));
    assert_eq!(second.variables().len(), 0);
    assert_eq!(first.variables().len(), 1);
}

#[test]
fn a_name_stands_once() {
    let stub = Stub::with_body("", 0);
    let job = HttpJob::new(
        "u".to_owned(),
        "GET".to_owned(),
        vec![
            ("Accept".to_owned(), "text/plain".to_owned()),
            ("Host".to_owned(), "x".to_owned()),
            ("Accept".to_owned(), "application/json".to_owned()),
        ],
        None,
        stub.clone(),
    );
    let context = ContextPool::new().default_context();
    assert_eq!(
        job.prepare(&context).unwrap().headers,
        vec![("Accept".to_owned(), "application/json".to_owned()), ("Host".to_owned(), "x".to_owned())]
    );
    let table = |cell: &str| RecordSource {
        headers: vec!["h".to_owned()],
        rows: vec![Some(vec![cell.to_owned()])],
        position: 0,
    };
    let mut local = ContextPool::new().new_context(
        1,
        vec![("t".to_owned(), table("first")), ("u".to_owned(), table("other")), ("t".to_owned(), table("second"))],
    );
    assert_eq!(local.next(), Vec::<String>::new());
    assert_eq!(local.variables().len(), 2);
    assert_eq!(local.find_path(&vec!["t".to_owned(), "h".to_owned()]), Some(CaptureValue::string("second")));
    assert_eq!(local.next(), vec!["t".to_owned(), "u".to_owned()]);
    let resource =
        |name: &str, path: &str| Resource { kind: ResourceType::File(path.to_owned()), name: name.to_owned() };
    let mut twice = manifest(
        vec![("g", vec![entry("early", "u")]), ("h", vec![]), ("g", vec![entry("late", "u"), entry("later", "u")])],
        Object::new(),
    );
    twice.resources = vec![resource("users", "a.csv"), resource("users", "b.csv")];
    let (_, groups, pool) = App::new(twice, Vec::new(), stub).into_parts();
    assert_eq!(pool.resource_files(), &vec![("users".to_owned(), "b.csv".to_owned())]);
    assert_eq!(groups.iter().map(|group| group.name()).collect::<Vec<String>>(), vec!["g".to_owned(), "h".to_owned()]);
    assert_eq!(groups[0].amount(), 2);
    assert_eq!(groups[0].iter()[0].1.name, "late");
}

#[test]
fn a_repeat_hands_back_messages_and_idle_tables() {
    let info = RunInfo::with_id(
        3,
        "job".to_owned(),
        1,
        Duration::zero(),
        vec![CaptureEntry { cap: Capture::json("$.n").unwrap(), variable: "n".to_owned() }],
        vec![Operation::Div("n".to_owned(), CaptureValue::integer(2))],
        vec![Assertion {
            message: "n is {{ n }}".to_owned(),
            function: AssertFunction::Equal(
                Variable::Path(vec!["n".to_owned()]),
                Variable::Value(CaptureValue::float_bits(3.5f64.to_bits())),
            ),
        }],
    );
    let stub = Stub::with_body("{\"n\": 7}", 1);
    let job = HttpJob::new("https://x".to_owned(), "GET".to_owned(), vec![], None, stub);
    let mut run = GroupRun::new("g".to_owned());
    let empty = RecordSource { headers: vec!["h".to_owned()], rows: vec![], position: 0 };
    let mut context = ContextPool::new().new_context(3, vec![("rows".to_owned(), empty)]);
    run.begin_job();
    let halves = |_: Arithmetic, first: Number, second: Number| match (first, second) {
        (Number::Whole(x), Number::Whole(y)) => (x as f64 / y as f64).to_bits(),
        _ => panic!("whole numbers are due"),
    };
    let outcome = run.repeat(&job, &info, &mut context, &halves).unwrap();
    assert_eq!(outcome.unread, vec!["rows".to_owned()]);
    assert_eq!(outcome.results, vec![Ok(Effect::Computed { variable: "n".to_owned(), bits: 3.5f64.to_bits() })]);
    assert_eq!(outcome.verdicts, vec![Ok(true)]);
    assert_eq!(outcome.messages, vec!["n is 3.5".to_owned()]);
}

#[test]
fn rendered_parts_make_the_request_and_the_step() {
    let stub = Stub::with_body("", 0);
    let headers = vec![("A".to_owned(), "{{ a }}".to_owned()), ("B".to_owned(), "{{ b }}".to_owned())];
    let job = HttpJob::new("{{ u }}".to_owned(), "PUT".to_owned(), headers.clone(), Some(b"{{ t }}".to_vec()), stub.clone());
    assert_eq!(
        job.assemble("https://x".to_owned(), vec!["1".to_owned(), "2".to_owned()], Some("body \u{e9}".to_owned())),
        PreparedRequest {
            uri: "https://x".to_owned(),
            method: "PUT".to_owned(),
            headers: vec![("A".to_owned(), "1".to_owned()), ("B".to_owned(), "2".to_owned())],
            body: "body \u{e9}".as_bytes().to_vec(),
        }
    );
    let unrendered = job.assemble(String::new(), vec!["1".to_owned()], None);
    assert_eq!(unrendered.headers, vec![("A".to_owned(), "1".to_owned()), ("B".to_owned(), "{{ b }}".to_owned())]);
    assert_eq!(unrendered.body, b"{{ t }}".to_vec());
    let raw = HttpJob::new("u".to_owned(), "GET".to_owned(), vec![], Some(vec![0xff, 0x7b]), stub.clone());
    assert_eq!(raw.assemble("u".to_owned(), vec![], Some("text".to_owned())).body, vec![0xff, 0x7b]);
    let none = HttpJob::new("u".to_owned(), "GET".to_owned(), vec![], None, stub);
    assert_eq!(none.assemble("u".to_owned(), vec![], Some("text".to_owned())).body, Vec::<u8>::new());

    let passed = step_of("n is 3".to_owned(), &Ok(true), 5, 9);
    assert_eq!(passed.name, "n is 3");
    assert_eq!(passed.status, Status::Passed);
    assert_eq!((passed.start, passed.stop), (5, 9));
    assert_eq!(passed.status_details, StatusDetails::from("Test step 2 message".to_owned()));
    assert!(passed.steps.is_empty());
    assert_eq!(step_of(String::new(), &Ok(false), 0, 0).status, Status::Failed);
    assert_eq!(step_of(String::new(), &Err(Error::AssertionFailed("x".to_owned())), 0, 0).status, Status::Broken);
}
