//! Groups of jobs, what is known of each run, and what a job hands back.

use vstd::prelude::*;
use crate::adapters::ident;
use crate::app::assertion::Assertion;
use crate::app::capture::CaptureEntry;
use crate::app::context::Context;
use crate::app::error::Error;
use crate::app::operation::Operation;
use crate::app::value::{Object, ObjectModel};
use crate::time::timeunit::Duration;

verus! {

/// What is known of a job's runs: its id and name, how often it repeats and
/// how long it waits before each repeat, and what is captured, performed
/// and asserted after each response.
pub struct RunInfo {
    pub name: String,
    pub id: u128,
    pub repeats: u64,
    pub delay: Duration,
    pub captures: Vec<CaptureEntry>,
    pub operations: Vec<Operation>,
    pub assertions: Vec<Assertion>,
}

/// A named list of jobs, each with what is known of its runs.
pub struct JobGroup<T> {
    name: String,
    jobs: Vec<(T, RunInfo)>,
}

/// What a job hands back: the body of the response, extras such as its
/// headers, and the time that the sender took.
pub struct ExecutionResponse {
    body: Vec<u8>,
    additional: Object,
    execution_time: Duration,
}

/// What runs as a job against a context.
pub trait JobExecutionHooks {
    fn execute(&self, context: &Context) -> Result<ExecutionResponse, Error>;
}

impl RunInfo {
    /// What is known of a job's runs, under a fresh random id.
    pub fn new(
        name: String,
        repeats: u64,
        delay: Duration,
        captures: Vec<CaptureEntry>,
        operations: Vec<Operation>,
        assertions: Vec<Assertion>,
    ) -> (r: RunInfo)
        ensures
            r.name == name,
            r.repeats == repeats,
            r.delay == delay,
            r.captures == captures,
            r.operations == operations,
            r.assertions == assertions,
    {
        RunInfo::with_id(ident::fresh(), name, repeats, delay, captures, operations, assertions)
    }

    /// What is known of a job's runs, under a given id.
    pub fn with_id(
        id: u128,
        name: String,
        repeats: u64,
        delay: Duration,
        captures: Vec<CaptureEntry>,
        operations: Vec<Operation>,
        assertions: Vec<Assertion>,
    ) -> (r: RunInfo)
        ensures
            r.id == id,
            r.name == name,
            r.repeats == repeats,
            r.delay == delay,
            r.captures == captures,
            r.operations == operations,
            r.assertions == assertions,
    {
        RunInfo { id, name, repeats, delay, captures, operations, assertions }
    }
}

impl<T> JobGroup<T> {
    /// The jobs of the group, in order.
    pub closed spec fn jobs(&self) -> Seq<(T, RunInfo)> {
        self.jobs@
    }

    /// The name of the group.
    pub closed spec fn label(&self) -> Seq<char> {
        self.name@
    }

    /// A group of a name and jobs.
    pub fn new(name: String, jobs: Vec<(T, RunInfo)>) -> (r: JobGroup<T>)
        ensures
            r.label() == name@,
            r.jobs() == jobs@,
    {
        JobGroup { name, jobs }
    }

    /// The jobs of the group, in order.
    pub fn iter(&self) -> (r: &Vec<(T, RunInfo)>)
        ensures
            r@ == self.jobs(),
    {
        &self.jobs
    }

    /// The number of jobs.
    pub fn amount(&self) -> (r: usize)
        ensures
            r == self.jobs().len(),
    {
        self.jobs.len()
    }

    /// The name of the group.
    pub fn name(&self) -> (r: String)
        ensures
            r@ == self.label(),
    {
        self.name.clone()
    }
}

impl ExecutionResponse {
    /// The body as bytes.
    pub closed spec fn body_bytes(&self) -> Seq<u8> {
        self.body@
    }

    /// The extras, each under its name.
    pub closed spec fn extras(&self) -> ObjectModel {
        self.additional@
    }

    /// The time that the sender took.
    pub closed spec fn time(&self) -> Duration {
        self.execution_time
    }

    /// A response of these parts.
    pub fn new(body: Vec<u8>, additional: Object, execution_time: Duration) -> (r: ExecutionResponse)
        ensures
            r.body_bytes() == body@,
            r.extras() == additional@,
            r.time() == execution_time,
    {
        ExecutionResponse { body, additional, execution_time }
    }

    /// The body of the response.
    pub fn body(&self) -> (r: &Vec<u8>)
        ensures
            r@ == self.body_bytes(),
    {
        &self.body
    }

    /// The body of the response, taken out of it.
    pub fn into_body(self) -> (r: Vec<u8>)
        ensures
            r@ == self.body_bytes(),
    {
        self.body
    }

    /// The extras of the response.
    pub fn additional(&self) -> (r: &Object)
        ensures
            r@ == self.extras(),
    {
        &self.additional
    }

    /// The time that the sender took.
    pub fn execution_time(&self) -> (r: Duration)
        ensures
            r == self.time(),
    {
        self.execution_time
    }

    /// A builder to which no part has been given.
    pub fn builder() -> (r: ExecutionResponseBuilder)
        ensures
            r.body is None,
            r.additional is None,
            r.execution_time is None,
    {
        ExecutionResponseBuilder { body: None, additional: None, execution_time: None }
    }
}

/// The parts of an [`ExecutionResponse`] that have been given so far.
pub struct ExecutionResponseBuilder {
    pub body: Option<Vec<u8>>,
    pub additional: Option<Object>,
    pub execution_time: Option<Duration>,
}

/// The message of the error for a part that a response needs and that was
/// not given.
pub open spec fn missing(field: Seq<char>) -> Seq<char> {
    "`"@ + field + "` must be initialized"@
}

impl ExecutionResponseBuilder {
    /// The first part that a response needs and that was not given: the
    /// body, the extras or the time, in this order.
    pub open spec fn first_missing(self) -> Option<Seq<char>> {
        if self.body is None {
            Some("body"@)
        } else if self.additional is None {
            Some("additional"@)
        } else if self.execution_time is None {
            Some("execution_time"@)
        } else {
            None
        }
    }

    /// Gives the body.
    pub fn body(self, body: Vec<u8>) -> (r: ExecutionResponseBuilder)
        ensures
            r == (ExecutionResponseBuilder { body: Some(body), ..self }),
    {
        ExecutionResponseBuilder { body: Some(body), ..self }
    }

    /// Gives the extras.
    pub fn additional(self, additional: Object) -> (r: ExecutionResponseBuilder)
        ensures
            r == (ExecutionResponseBuilder { additional: Some(additional), ..self }),
    {
        ExecutionResponseBuilder { additional: Some(additional), ..self }
    }

    /// Gives the time that the sender took.
    pub fn execution_time(self, execution_time: Duration) -> (r: ExecutionResponseBuilder)
        ensures
            r == (ExecutionResponseBuilder { execution_time: Some(execution_time), ..self }),
    {
        ExecutionResponseBuilder { execution_time: Some(execution_time), ..self }
    }

    /// The response that the given parts make, or the message that names
    /// the first part that was not given.
    pub fn build(self) -> (r: Result<ExecutionResponse, String>)
        ensures
            match self.first_missing() {
                None => r matches Ok(response) && response.body_bytes() == self.body->0@
                    && response.extras() == self.additional->0@ && response.time()
                    == self.execution_time->0,
                Some(field) => r matches Err(message) && message@ == missing(field),
            },
    {
        let body = match self.body {
            Some(body) => body,
            None => {
                return Err(missing_field("body"));
            },
        };
        let additional = match self.additional {
            Some(additional) => additional,
            None => {
                return Err(missing_field("additional"));
            },
        };
        let execution_time = match self.execution_time {
            Some(execution_time) => execution_time,
            None => {
                return Err(missing_field("execution_time"));
            },
        };
        Ok(ExecutionResponse { body, additional, execution_time })
    }
}

/// Builds the message of the error for a part that was not given.
fn missing_field(field: &str) -> (r: String)
    ensures
        r@ == missing(field@),
{
    let mut message = String::from_str("`");
    message.append(field);
    message.append("` must be initialized");
    message
}

} // verus!
