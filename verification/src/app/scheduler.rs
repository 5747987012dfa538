//! The run of a group: one repeat of a job after another, each giving the
//! record of a test, and the events that tell the main task of them.

use vstd::prelude::*;
use crate::adapters::clock;
use crate::adapters::ident;
use crate::app::assertion::{holds, verdict, Assertable, Assertion};
use crate::app::capture::{capture_each, captured_entries, CaptureEntry};
use crate::app::context::{advanced, has_markup, with_rows, without_row, Context};
use crate::app::error::Error;
use crate::app::executor::{ExecutionResponse, JobExecutionHooks, RunInfo};
use crate::app::operation::{
    after_operations, performed, Arithmetic, Effect, Number, Operation, Performable,
};
use crate::app::value::{merged, texts, ObjectModel};
use crate::reporter::allure::model::label::Label;
use crate::reporter::allure::model::stage::Stage;
use crate::reporter::allure::model::status::{Status, StatusDetails};
use crate::reporter::allure::model::test_result::{ExecutableItem, StepResult, TestResult};
use crate::time::timeunit::Duration;

verus! {

/// What a worker tells the main task.
#[derive(Debug)]
pub enum Event {
    /// A group has ended.
    GroupFinished(String),
    /// The record of a test is ready.
    Reported(TestResult),
}

/// What the main task does with an event.
#[derive(Debug)]
pub enum Handling {
    /// Hand the record to the reporter and go on.
    Save(TestResult),
    /// Go on.
    Continue,
    /// The last group has ended: stop.
    Stop,
}

/// The status of a step: passed where the predicate holds, failed where it
/// does not, broken where it could not be evaluated.
pub open spec fn step_status(result: Result<bool, Error>) -> Status {
    match result {
        Ok(true) => Status::Passed,
        Ok(false) => Status::Failed,
        Err(_) => Status::Broken,
    }
}

/// The status of a step.
pub fn status_of(result: &Result<bool, Error>) -> (r: Status)
    ensures
        r == step_status(*result),
{
    match result {
        Ok(true) => Status::Passed,
        Ok(false) => Status::Failed,
        Err(_) => Status::Broken,
    }
}

/// The gravest status among a start and the steps: the start where no step
/// is graver, and else the first of the gravest steps.
pub open spec fn rolled_up(start: Status, steps: Seq<ExecutableItem>) -> Status
    decreases steps.len(),
{
    if steps.len() == 0 {
        start
    } else {
        let front = rolled_up(start, steps.drop_last());
        if steps.last().status.rank() > front.rank() {
            steps.last().status
        } else {
            front
        }
    }
}

/// The gravest status among a start and the steps: no step is graver, and
/// neither is the start.
pub fn roll_up(start: Status, steps: &Vec<StepResult>) -> (r: Status)
    ensures
        r == rolled_up(start, steps@),
        r.rank() >= start.rank(),
        forall|i: int| 0 <= i < steps@.len() ==> r.rank() >= (#[trigger] steps@[i]).status.rank(),
{
    proof {
        lemma_rolled_up_is_worst(start, steps@);
    }
    let mut worst = start;
    let mut i: usize = 0;
    assert(steps@.take(0) =~= Seq::<ExecutableItem>::empty());
    while i < steps.len()
        invariant
            i <= steps.len(),
            worst == rolled_up(start, steps@.take(i as int)),
        decreases steps.len() - i,
    {
        assert(steps@.take(i + 1).drop_last() =~= steps@.take(i as int));
        assert(steps@.take(i + 1).last() == steps@[i as int]);
        worst = worst.worse(steps[i].status);
        i += 1;
    }
    assert(steps@.take(steps@.len() as int) =~= steps@);
    worst
}

/// No step is graver than what the steps roll up to, and neither is the
/// start.
pub proof fn lemma_rolled_up_is_worst(start: Status, steps: Seq<ExecutableItem>)
    ensures
        rolled_up(start, steps).rank() >= start.rank(),
        forall|i: int| 0 <= i < steps.len() ==> rolled_up(start, steps).rank() >= (#[trigger] steps[i]).status.rank(),
        rolled_up(start, steps) == start || exists|i: int|
            0 <= i < steps.len() && (#[trigger] steps[i]).status == rolled_up(start, steps),
    decreases steps.len(),
{
    if steps.len() > 0 {
        let front = steps.drop_last();
        lemma_rolled_up_is_worst(start, front);
        assert forall|i: int| 0 <= i < steps.len() implies rolled_up(start, steps).rank() >= (
        #[trigger] steps[i]).status.rank() by {
            if i < front.len() {
                assert(front[i] == steps[i]);
            }
        }
        if rolled_up(start, steps) != start {
            if steps.last().status.rank() > rolled_up(start, front).rank() {
                assert(steps[steps.len() - 1].status == rolled_up(start, steps));
            } else {
                let i = choose|i: int|
                    0 <= i < front.len() && (#[trigger] front[i]).status == rolled_up(start, front);
                assert(steps[i].status == rolled_up(start, steps));
            }
        }
    }
}

/// The message in the details of every step.
pub open spec fn step_details() -> Seq<char> {
    "Test step 2 message"@
}

/// The message in the details of every test.
pub open spec fn test_details() -> Seq<char> {
    "Test description"@
}

/// Whether an item holds nothing but its name, status and times, its steps
/// and the message of its details.
pub open spec fn bare(item: ExecutableItem, details: Seq<char>) -> bool {
    &&& item.status_details.message@ == details
    &&& item.status_details.trace is None
    &&& item.stage == Stage::Finished
    &&& item.description@ == Seq::<char>::empty()
    &&& item.description_html is None
    &&& item.attachments@.len() == 0
    &&& item.parameters@.len() == 0
}

/// Whether an assertion needs the template engine: its message holds
/// markup, or the variables alone do not decide its predicate.
pub open spec fn needs_engine(assertion: Assertion, vars: ObjectModel) -> bool {
    has_markup(assertion.message@) || verdict(assertion.function, vars) is None
}

/// Whether evaluating an assertion is sure to fail with `Syntax`: the
/// rendering of its message is sure to fail, or that of an operand.
pub open spec fn unrenderable(assertion: Assertion, standard: bool) -> bool {
    crate::app::context::unrenderable(assertion.message@, standard) || assertion.function.unrenderable(standard)
}

/// The variables after the captures of a body were set, each under the
/// name of its variable: where the body is no UTF-8 or no JSON, to nothing.
pub open spec fn with_captures(vars: ObjectModel, captures: Seq<CaptureEntry>, body: Seq<u8>) -> ObjectModel {
    merged(vars, captured_entries(captures, body))
}

/// The run of a group: the records of its tests so far, and how far the
/// current job has come.
pub struct GroupRun {
    name: String,
    reports: Vec<TestResult>,
    done: u64,
    first: Option<u128>,
}

/// What one repeat leaves to do outside: the names of the tables that gave
/// no row; the body of the response, or the error of the job where it could
/// not connect; what each operation gave, an effect or a failure, in the
/// order of the operations; and what each assertion gave, with its
/// rendered message, in the order of the assertions.
pub struct Outcome {
    pub unread: Vec<String>,
    pub response: Result<Vec<u8>, Error>,
    pub results: Vec<Result<Effect, Error>>,
    pub verdicts: Vec<Result<bool, Error>>,
    pub messages: Vec<String>,
}

/// The names of steps, in order.
pub fn names_of(steps: &Vec<StepResult>) -> (r: Vec<String>)
    ensures
        r@.len() == steps@.len(),
        forall|i: int| 0 <= i < r@.len() ==> (#[trigger] r@[i])@ == steps@[i].name@,
{
    let mut names: Vec<String> = Vec::new();
    let mut i: usize = 0;
    while i < steps.len()
        invariant
            i <= steps.len(),
            names@.len() == i,
            forall|k: int| 0 <= k < i ==> (#[trigger] names@[k])@ == steps@[k].name@,
        decreases steps.len() - i,
    {
        names.push(steps[i].name.clone());
        i += 1;
    }
    names
}

/// What a response left behind: its body, or the error of the job where it
/// could not connect, and what each operation gave, an effect or a failure,
/// in the order of the operations.
pub struct Settled {
    pub response: Result<Vec<u8>, Error>,
    pub results: Vec<Result<Effect, Error>>,
}

/// Performs operations on a context, one after another: what each gave,
/// in order. An operation that fails changes nothing. An error of the
/// template engine ends the run: it comes back as `Syntax`; where no
/// operation needs the engine, there is none.
pub fn perform_all<F: Fn(Arithmetic, Number, Number) -> u64>(
    ctx: &mut Context,
    operations: &Vec<Operation>,
    step: &F,
) -> (r: Result<Vec<Result<Effect, Error>>, Error>)
    requires
        forall|kind: Arithmetic, first: Number, second: Number| call_requires(step, (kind, first, second)),
    ensures
        final(ctx).tables() == old(ctx).tables(),
        final(ctx).standard() == old(ctx).standard(),
        r matches Err(e) ==> e is Syntax,
        (forall|i: int| 0 <= i < operations@.len() ==> !(#[trigger] operations@[i]).needs_engine()) ==> r is Ok,
        (exists|i: int| 0 <= i < operations@.len() && #[trigger] operations@[i].unrenderable(old(ctx).standard()))
            ==> r is Err,
        r matches Ok(results) ==> {
            &&& results@.len() == operations@.len()
            &&& forall|i: int|
                0 <= i < operations@.len() ==> performed(
                    after_operations(old(ctx).vars(), operations@.take(i), results@.take(i)),
                    operations@[i],
                    #[trigger] results@[i],
                )
            &&& final(ctx).vars() == after_operations(old(ctx).vars(), operations@, results@)
        },
{
    let ghost start = ctx.vars();
    let mut results: Vec<Result<Effect, Error>> = Vec::new();
    let mut i: usize = 0;
    assert(operations@.take(0) =~= Seq::<Operation>::empty());
    while i < operations.len()
        invariant
            i <= operations.len(),
            start == old(ctx).vars(),
            forall|kind: Arithmetic, first: Number, second: Number| call_requires(step, (kind, first, second)),
            ctx.tables() == old(ctx).tables(),
            ctx.standard() == old(ctx).standard(),
            results@.len() == i,
            forall|k: int| 0 <= k < i ==> !#[trigger] operations@[k].unrenderable(old(ctx).standard()),
            ctx.vars() == after_operations(start, operations@.take(i as int), results@),
            forall|k: int|
                0 <= k < i ==> performed(
                    after_operations(start, operations@.take(k), results@.take(k)),
                    operations@[k],
                    #[trigger] results@[k],
                ),
        decreases operations.len() - i,
    {
        assert(operations@.take(i + 1).drop_last() =~= operations@.take(i as int));
        assert(operations@.take(i + 1).last() == operations@[i as int]);
        let ghost before = results@;
        match operations[i].perform(ctx, step) {
            Err(Error::Syntax(message)) => {
                assert(operations@[i as int].needs_engine());
                return Err(Error::Syntax(message));
            },
            given => {
                results.push(given);
            },
        }
        proof {
            assert(results@.drop_last() =~= before);
            assert(results@.take(i as int) =~= before);
            assert forall|k: int| 0 <= k < i + 1 implies performed(
                after_operations(start, operations@.take(k), results@.take(k)),
                operations@[k],
                #[trigger] results@[k],
            ) by {
                if k < i {
                    assert(results@[k] == before[k]);
                    assert(results@.take(k) =~= before.take(k));
                }
            }
        }
        i += 1;
    }
    assert(operations@.take(operations@.len() as int) =~= operations@);
    Ok(results)
}

/// Takes what a job handed back into a context.
///
/// After a response, the captures of its body are set in the variables and
/// the operations performed on them, one after another; an operation that
/// fails changes nothing. Without a response nothing is captured or
/// performed, and the job's error is kept. Arithmetic that leaves the whole
/// numbers is handed to `step`.
///
/// An error of the template engine ends the run: it comes back as `Syntax`,
/// be it the job's or that of a console line. Where neither the job nor a
/// console line needs the engine, there is none.
pub fn settle<F: Fn(Arithmetic, Number, Number) -> u64>(
    ctx: &mut Context,
    info: &RunInfo,
    result: Result<ExecutionResponse, Error>,
    step: &F,
) -> (r: Result<Settled, Error>)
    requires
        forall|kind: Arithmetic, first: Number, second: Number| call_requires(step, (kind, first, second)),
    ensures
        final(ctx).tables() == old(ctx).tables(),
        final(ctx).standard() == old(ctx).standard(),
        r matches Err(e) ==> e is Syntax,
        (!(result matches Err(Error::Syntax(_))) && forall|i: int|
            0 <= i < info.operations@.len() ==> !(#[trigger] info.operations@[i]).needs_engine()) ==> r is Ok,
        (result is Ok && exists|i: int|
            0 <= i < info.operations@.len() && #[trigger] info.operations@[i].unrenderable(old(ctx).standard()))
            ==> r is Err,
        match result {
            Ok(response) => r matches Ok(settled) ==> {
                let start = with_captures(old(ctx).vars(), info.captures@, response.body_bytes());
                &&& settled.response matches Ok(body) && body@ == response.body_bytes()
                &&& settled.results@.len() == info.operations@.len()
                &&& forall|i: int|
                    0 <= i < info.operations@.len() ==> performed(
                        after_operations(start, info.operations@.take(i), settled.results@.take(i)),
                        info.operations@[i],
                        #[trigger] settled.results@[i],
                    )
                &&& final(ctx).vars() == after_operations(start, info.operations@, settled.results@)
            },
            Err(Error::Syntax(_)) => r is Err && final(ctx).vars() == old(ctx).vars(),
            Err(error) => r matches Ok(settled) && settled.response == Err::<Vec<u8>, Error>(error)
                && settled.results@.len() == 0 && final(ctx).vars() == old(ctx).vars(),
        },
{
    match result {
        Ok(response) => {
            let exported = capture_each(&info.captures, response.body().as_slice());
            ctx.push_vars(&exported);
            assert(ctx.vars() == with_captures(old(ctx).vars(), info.captures@, response.body_bytes()));
            match perform_all(ctx, &info.operations, step) {
                Ok(results) => Ok(Settled { response: Ok(response.into_body()), results }),
                Err(e) => Err(e),
            }
        },
        Err(Error::Syntax(message)) => Err(Error::Syntax(message)),
        Err(e) => Ok(Settled { response: Err(e), results: Vec::new() }),
    }
}

/// The record of a step: it bears the name that its message rendered to,
/// the status of what its predicate came to, and the two times, and
/// nothing else but the message of the details of every step.
pub fn step_of(name: String, result: &Result<bool, Error>, start: u128, stop: u128) -> (r: StepResult)
    ensures
        r.name@ == name@,
        r.status == step_status(*result),
        r.start == start,
        r.stop == stop,
        r.steps@.len() == 0,
        bare(r, step_details()),
{
    ExecutableItem {
        name,
        status: status_of(result),
        status_details: StatusDetails::with_message("Test step 2 message".to_owned()),
        stage: Stage::Finished,
        description: String::new(),
        description_html: None,
        steps: Vec::new(),
        attachments: Vec::new(),
        parameters: Vec::new(),
        start,
        stop,
    }
}

/// Evaluates assertions in a context: each gives what its predicate came
/// to, and a step that bears its rendered message and a status. The status
/// is passed where the predicate holds, failed where it does not, and
/// broken where an operand could not be resolved.
///
/// An error of the template engine ends the run: it comes back as `Syntax`.
pub fn evaluate(ctx: &Context, assertions: &Vec<Assertion>) -> (r: Result<
    (Vec<StepResult>, Vec<Result<bool, Error>>),
    Error,
>)
    ensures
        r matches Err(e) ==> e is Syntax,
        (forall|i: int| 0 <= i < assertions@.len() ==> !needs_engine(#[trigger] assertions@[i], ctx.vars()))
            ==> r is Ok,
        (exists|i: int| 0 <= i < assertions@.len() && unrenderable(#[trigger] assertions@[i], ctx.standard()))
            ==> r is Err,
        r matches Ok((steps, verdicts)) ==> {
            &&& steps@.len() == assertions@.len()
            &&& verdicts@.len() == assertions@.len()
            &&& forall|i: int|
                #![trigger steps@[i]]
                0 <= i < steps@.len() ==> {
                    &&& steps@[i].status == step_status(verdicts@[i])
                    &&& steps@[i].steps@.len() == 0
                    &&& bare(steps@[i], step_details())
                    &&& !has_markup(assertions@[i].message@) ==> steps@[i].name@
                        == assertions@[i].message@
                    &&& verdict(assertions@[i].function, ctx.vars()) matches Some(v) ==> holds(
                        verdicts@[i],
                        v,
                    )
                }
        },
{
    let mut steps: Vec<StepResult> = Vec::new();
    let mut verdicts: Vec<Result<bool, Error>> = Vec::new();
    let mut i: usize = 0;
    while i < assertions.len()
        invariant
            i <= assertions.len(),
            steps@.len() == i,
            verdicts@.len() == i,
            forall|k: int| 0 <= k < i ==> !unrenderable(#[trigger] assertions@[k], ctx.standard()),
            forall|k: int|
                #![trigger steps@[k]]
                0 <= k < i ==> {
                    &&& steps@[k].status == step_status(verdicts@[k])
                    &&& steps@[k].steps@.len() == 0
                    &&& bare(steps@[k], step_details())
                    &&& !has_markup(assertions@[k].message@) ==> steps@[k].name@
                        == assertions@[k].message@
                    &&& verdict(assertions@[k].function, ctx.vars()) matches Some(v) ==> holds(
                        verdicts@[k],
                        v,
                    )
                },
        decreases assertions.len() - i,
    {
        let step_started = clock::now_millis();
        let result = assertions[i].function.check(ctx);
        match &result {
            Err(Error::Syntax(message)) => {
                assert(needs_engine(assertions@[i as int], ctx.vars()));
                return Err(Error::Syntax(message.clone()));
            },
            _ => {},
        }
        let name = match ctx.apply(assertions[i].message.as_str()) {
            Ok(name) => name,
            Err(e) => {
                assert(needs_engine(assertions@[i as int], ctx.vars()));
                return Err(e);
            },
        };
        let ghost steps_before = steps@;
        let ghost verdicts_before = verdicts@;
        steps.push(step_of(name, &result, step_started, clock::now_millis()));
        verdicts.push(result);
        proof {
            assert forall|k: int| #![trigger steps@[k]] 0 <= k < i + 1 implies {
                &&& steps@[k].status == step_status(verdicts@[k])
                &&& steps@[k].steps@.len() == 0
                &&& bare(steps@[k], step_details())
                &&& !has_markup(assertions@[k].message@) ==> steps@[k].name@ == assertions@[k].message@
                &&& verdict(assertions@[k].function, ctx.vars()) matches Some(v) ==> holds(verdicts@[k], v)
            } by {
                if k < i {
                    assert(steps@[k] == steps_before[k]);
                    assert(verdicts@[k] == verdicts_before[k]);
                }
            }
        }
        i += 1;
    }
    Ok((steps, verdicts))
}

impl GroupRun {
    /// The name of the group.
    pub closed spec fn label(&self) -> Seq<char> {
        self.name@
    }

    /// The records of the group's tests so far, in the order of the
    /// repeats.
    pub closed spec fn reports(&self) -> Seq<TestResult> {
        self.reports@
    }

    /// How many repeats of the current job have been run.
    pub closed spec fn done(&self) -> nat {
        self.done as nat
    }

    /// The identifier of the record of the current job's first repeat, once
    /// there is one.
    pub closed spec fn first(&self) -> Option<u128> {
        self.first
    }

    /// The run of a group of which no job has started.
    pub fn new(name: String) -> (r: GroupRun)
        ensures
            r.label() == name@,
            r.reports() == Seq::<TestResult>::empty(),
            r.done() == 0,
            r.first() is None,
    {
        GroupRun { name, reports: Vec::new(), done: 0, first: None }
    }

    /// Starts the next job: none of its repeats has been run.
    pub fn begin_job(&mut self)
        ensures
            final(self).label() == old(self).label(),
            final(self).reports() == old(self).reports(),
            final(self).done() == 0,
            final(self).first() is None,
    {
        self.done = 0;
        self.first = None;
    }

    /// Whether a repeat of the current job is still due, and how long to
    /// wait before it: `Some` until the job has been repeated as often as
    /// it asks, and `None` from then on.
    pub fn pending(&self, info: &RunInfo) -> (r: Option<Duration>)
        ensures
            r == (if self.done() < info.repeats {
                Some(info.delay)
            } else {
                None
            }),
    {
        if self.done < info.repeats {
            Some(info.delay)
        } else {
            None
        }
    }

    /// Runs one repeat of the current job, if one is due.
    ///
    /// The tables advance, the job runs, and what it hands back is taken
    /// into the context as [`settle`] says, with `step` for arithmetic that
    /// leaves the whole numbers; then each assertion gives a step
    /// as [`evaluate`] says, and the record of the test is added to the
    /// group's. The record bears the job's name and id, a fresh identifier,
    /// the language and the group's name as its suite, and the identifier of
    /// the job's first record where this is a later repeat. Its status is
    /// the gravest among its steps, and at least failed where the job could
    /// not connect.
    ///
    /// An error of the template engine ends the run: it comes back as
    /// `Syntax`, and nothing is recorded for the repeat. Where no repeat is
    /// due, nothing is done, and what is handed back holds an empty body
    /// and nothing else.
    pub fn repeat<J: JobExecutionHooks, F: Fn(Arithmetic, Number, Number) -> u64>(
        &mut self,
        job: &J,
        info: &RunInfo,
        ctx: &mut Context,
        step: &F,
    ) -> (r: Result<Outcome, Error>)
        requires
            forall|kind: Arithmetic, first: Number, second: Number| call_requires(step, (kind, first, second)),
        ensures
            final(self).label() == old(self).label(),
            final(ctx).standard() == old(ctx).standard(),
            old(self).done() >= info.repeats ==> r is Ok && final(self).reports() == old(
                self,
            ).reports() && final(self).done() == old(self).done() && final(self).first() == old(
                self,
            ).first() && final(ctx).vars() == old(ctx).vars() && final(ctx).tables() == old(ctx).tables(),
            r matches Err(e) ==> e is Syntax && final(self).reports() == old(self).reports()
                && final(self).done() == old(self).done() && final(self).first() == old(self).first(),
            (old(self).done() < info.repeats && r is Ok) ==> {
                let record = final(self).reports().last();
                &&& final(self).done() == old(self).done() + 1
                &&& final(self).reports().len() == old(self).reports().len() + 1
                &&& final(self).reports().drop_last() == old(self).reports()
                &&& record.item.name@ == info.name@
                &&& record.full_name@ == info.name@
                &&& record.test_case_id == info.id
                &&& record.rerun_of == old(self).first()
                &&& record.history_id is None
                &&& record.links@.len() == 0
                &&& bare(record.item, test_details())
                &&& final(self).first() == (match old(self).first() {
                    Some(first) => Some(first),
                    None => Some(record.uuid),
                })
                &&& record.labels@.len() == 2
                &&& record.labels@[0] matches Label::Language(language) && language@ == "English"@
                &&& record.labels@[1] matches Label::Suite(suite) && suite@ == old(self).label()
                &&& texts(r->Ok_0.unread@) == without_row(old(ctx).tables())
                &&& record.item.steps@.len() == info.assertions@.len()
                &&& r->Ok_0.verdicts@.len() == info.assertions@.len()
                &&& r->Ok_0.messages@.len() == info.assertions@.len()
                &&& forall|i: int|
                    #![trigger record.item.steps@[i]]
                    0 <= i < record.item.steps@.len() ==> {
                        &&& record.item.steps@[i].status == step_status(r->Ok_0.verdicts@[i])
                        &&& r->Ok_0.messages@[i]@ == record.item.steps@[i].name@
                        &&& bare(record.item.steps@[i], step_details())
                        &&& record.item.steps@[i].steps@.len() == 0
                        &&& !has_markup(info.assertions@[i].message@) ==> record.item.steps@[i].name@
                            == info.assertions@[i].message@
                        &&& verdict(info.assertions@[i].function, final(ctx).vars()) matches Some(v)
                            ==> holds(r->Ok_0.verdicts@[i], v)
                    }
                &&& r->Ok_0.response is Err ==> r->Ok_0.results@.len() == 0 && final(ctx).vars()
                    == with_rows(old(ctx).vars(), old(ctx).tables())
                &&& r->Ok_0.response matches Ok(body) ==> {
                    let start = with_captures(
                        with_rows(old(ctx).vars(), old(ctx).tables()),
                        info.captures@,
                        body@,
                    );
                    &&& r->Ok_0.results@.len() == info.operations@.len()
                    &&& forall|i: int|
                        0 <= i < info.operations@.len() ==> performed(
                            after_operations(start, info.operations@.take(i), r->Ok_0.results@.take(i)),
                            info.operations@[i],
                            #[trigger] r->Ok_0.results@[i],
                        )
                    &&& final(ctx).vars() == after_operations(start, info.operations@, r->Ok_0.results@)
                }
                &&& record.item.status == rolled_up(
                    if r->Ok_0.response is Ok {
                        Status::Passed
                    } else {
                        Status::Failed
                    },
                    record.item.steps@,
                )
                &&& forall|i: int|
                    0 <= i < old(ctx).tables().len() ==> (#[trigger] final(ctx).tables()[i]) == (
                        old(ctx).tables()[i].0,
                        advanced(old(ctx).tables()[i].1),
                    )
            },
    {
        if self.done >= info.repeats {
            return Ok(
                Outcome {
                    unread: Vec::new(),
                    response: Ok(Vec::new()),
                    results: Vec::new(),
                    verdicts: Vec::new(),
                    messages: Vec::new(),
                },
            );
        }
        let started = clock::now_millis();
        let unread = ctx.next();
        let settled = match settle(ctx, info, job.execute(ctx), step) {
            Ok(settled) => settled,
            Err(e) => {
                return Err(e);
            },
        };
        let Settled { response, results } = settled;
        let (steps, verdicts) = match evaluate(ctx, &info.assertions) {
            Ok(evaluated) => evaluated,
            Err(e) => {
                return Err(e);
            },
        };
        let messages = names_of(&steps);
        let base = if response.is_ok() {
            Status::Passed
        } else {
            Status::Failed
        };
        let status = roll_up(base, &steps);
        let ghost rolled = steps@;
        let item = ExecutableItem {
            name: info.name.clone(),
            status,
            status_details: StatusDetails::with_message("Test description".to_owned()),
            stage: Stage::Finished,
            description: String::new(),
            description_html: None,
            steps,
            attachments: Vec::new(),
            parameters: Vec::new(),
            start: started,
            stop: clock::now_millis(),
        };
        let uuid = ident::fresh();
        let mut labels: Vec<Label> = Vec::new();
        labels.push(Label::Language("English".to_owned()));
        labels.push(Label::Suite(self.name.clone()));
        let record = TestResult {
            item,
            uuid,
            history_id: None,
            full_name: info.name.clone(),
            test_case_id: info.id,
            rerun_of: self.first,
            labels,
            links: Vec::new(),
        };
        if self.first.is_none() {
            self.first = Some(uuid);
        }
        let ghost before = self.reports@;
        self.reports.push(record);
        assert(self.reports@.drop_last() =~= before);
        self.done = self.done + 1;
        proof {
            let last = self.reports@.last();
            assert(last.item.steps@ == rolled);
            assert(last.item.status == rolled_up(base, last.item.steps@));
        }
        Ok(Outcome { unread, response, results, verdicts, messages })
    }

    /// Runs a job from its first repeat to its last: before each repeat
    /// that asks for a delay, `pause` is called with it, and arithmetic that
    /// leaves the whole numbers is handed to `step`.
    ///
    /// A job that asks for a number of repeats gives exactly that many
    /// records, each under the job's id, and the later ones name the first
    /// as the one that they rerun. An error of the template engine ends the
    /// run and comes back as `Syntax`.
    pub fn run_job<J: JobExecutionHooks, F: Fn(Duration), G: Fn(Arithmetic, Number, Number) -> u64>(
        &mut self,
        job: &J,
        info: &RunInfo,
        ctx: &mut Context,
        pause: &F,
        step: &G,
    ) -> (r: Result<Vec<Outcome>, Error>)
        requires
            forall|delay: Duration| call_requires(pause, (delay,)),
            forall|kind: Arithmetic, first: Number, second: Number| call_requires(step, (kind, first, second)),
        ensures
            final(self).label() == old(self).label(),
            final(ctx).standard() == old(ctx).standard(),
            r matches Err(e) ==> e is Syntax,
            info.repeats == 0 ==> r is Ok,
            r matches Ok(outcomes) ==> {
                &&& outcomes@.len() == info.repeats
                &&& final(self).done() == info.repeats
                &&& final(self).reports().len() == old(self).reports().len() + info.repeats
                &&& final(self).reports().take(old(self).reports().len() as int) == old(self).reports()
                &&& forall|k: int|
                    old(self).reports().len() <= k < final(self).reports().len() ==> {
                        &&& (#[trigger] final(self).reports()[k]).test_case_id == info.id
                        &&& final(self).reports()[k].rerun_of == (if k == old(self).reports().len() {
                            None
                        } else {
                            Some(final(self).reports()[old(self).reports().len() as int].uuid)
                        })
                    }
            },
    {
        self.begin_job();
        let ghost start = self.reports();
        let mut outcomes: Vec<Outcome> = Vec::new();
        assert(self.reports().take(start.len() as int) =~= start);
        loop
            invariant
                self.label() == old(self).label(),
                ctx.standard() == old(ctx).standard(),
                forall|delay: Duration| call_requires(pause, (delay,)),
                forall|kind: Arithmetic, first: Number, second: Number|
                    call_requires(step, (kind, first, second)),
                outcomes@.len() == self.done(),
                self.done() <= info.repeats,
                self.reports().len() == start.len() + self.done(),
                self.reports().take(start.len() as int) == start,
                self.first() == (if self.done() == 0 {
                    None
                } else {
                    Some(self.reports()[start.len() as int].uuid)
                }),
                forall|k: int|
                    start.len() <= k < self.reports().len() ==> {
                        &&& (#[trigger] self.reports()[k]).test_case_id == info.id
                        &&& self.reports()[k].rerun_of == (if k == start.len() {
                            None
                        } else {
                            Some(self.reports()[start.len() as int].uuid)
                        })
                    },
            ensures
                self.done() == info.repeats,
            decreases info.repeats - self.done(),
        {
            let delay = match self.pending(info) {
                Some(delay) => delay,
                None => {
                    break ;
                },
            };
            if !delay.is_zero() {
                pause(delay);
            }
            let ghost before = self.reports();
            match self.repeat(job, info, ctx, step) {
                Ok(outcome) => {
                    outcomes.push(outcome);
                    proof {
                        let after = self.reports();
                        assert(after.drop_last() == before);
                        assert forall|k: int| 0 <= k < before.len() implies after[k] == before[k] by {
                            assert(after.drop_last()[k] == after[k]);
                        }
                        assert(after.take(start.len() as int) =~= start);
                    }
                },
                Err(e) => {
                    return Err(e);
                },
            }
        }
        Ok(outcomes)
    }

    /// The events of a group that has ended: the record of each test, in
    /// order, and then the end of the group.
    pub fn into_events(self) -> (r: Vec<Event>)
        ensures
            r@.len() == self.reports().len() + 1,
            forall|i: int|
                0 <= i < self.reports().len() ==> (#[trigger] r@[i]) == Event::Reported(
                    self.reports()[i],
                ),
            r@.last() matches Event::GroupFinished(name) && name@ == self.label(),
    {
        let ghost all = self.reports@;
        let mut reports = self.reports;
        let mut reversed: Vec<TestResult> = Vec::new();
        while reports.len() > 0
            invariant
                reports@.len() + reversed@.len() == all.len(),
                forall|i: int| 0 <= i < reports@.len() ==> reports@[i] == all[i],
                forall|i: int|
                    0 <= i < reversed@.len() ==> reversed@[i] == all[all.len() - 1 - i],
            decreases reports@.len(),
        {
            match reports.pop() {
                Some(record) => {
                    reversed.push(record);
                },
                None => {},
            }
        }
        let mut events: Vec<Event> = Vec::new();
        while reversed.len() > 0
            invariant
                events@.len() + reversed@.len() == all.len(),
                forall|i: int|
                    0 <= i < reversed@.len() ==> reversed@[i] == all[all.len() - 1 - i],
                forall|i: int| 0 <= i < events@.len() ==> (#[trigger] events@[i]) == Event::Reported(all[i]),
            decreases reversed@.len(),
        {
            match reversed.pop() {
                Some(record) => {
                    events.push(Event::Reported(record));
                },
                None => {},
            }
        }
        events.push(Event::GroupFinished(self.name));
        events
    }
}

/// The main task's count of the groups that have not ended yet.
pub struct Drain {
    remaining: usize,
}

impl Drain {
    /// How many groups have not ended yet.
    pub closed spec fn remaining(&self) -> nat {
        self.remaining as nat
    }

    /// The count for `groups` groups.
    pub fn new(groups: usize) -> (r: Drain)
        ensures
            r.remaining() == groups,
    {
        Drain { remaining: groups }
    }

    /// Whether any group has not ended yet.
    pub fn is_open(&self) -> (r: bool)
        ensures
            r == (self.remaining() > 0),
    {
        self.remaining > 0
    }

    /// Takes an event: a record is to be saved; the end of a group counts
    /// one group down, and stops the main task where it was the last.
    pub fn on_event(&mut self, event: Event) -> (r: Handling)
        ensures
            match event {
                Event::Reported(record) => r == Handling::Save(record) && final(self).remaining()
                    == old(self).remaining(),
                Event::GroupFinished(_) => final(self).remaining() == (if old(self).remaining() > 0 {
                    old(self).remaining() - 1
                } else {
                    0
                }) && (if final(self).remaining() == 0 {
                    r is Stop
                } else {
                    r is Continue
                }),
            },
    {
        match event {
            Event::Reported(record) => Handling::Save(record),
            Event::GroupFinished(_) => {
                if self.remaining > 0 {
                    self.remaining = self.remaining - 1;
                }
                if self.remaining == 0 {
                    Handling::Stop
                } else {
                    Handling::Continue
                }
            },
        }
    }
}

} // verus!
