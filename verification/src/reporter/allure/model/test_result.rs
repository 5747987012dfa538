//! The records that are written for steps and tests.

use vstd::prelude::*;
use crate::reporter::allure::model::attachment::Attachment;
use crate::reporter::allure::model::label::Label;
use crate::reporter::allure::model::link::Link;
use crate::reporter::allure::model::parameter::Parameter;
use crate::reporter::allure::model::stage::Stage;
use crate::reporter::allure::model::status::{Status, StatusDetails};

verus! {

/// A step of a test, or a test's own part of its record: a name, how it
/// ended, its steps, and when it started and stopped, in milliseconds since
/// the epoch.
#[derive(Debug, PartialEq, Eq)]
pub struct ExecutableItem {
    pub name: String,
    pub status: Status,
    pub status_details: StatusDetails,
    pub stage: Stage,
    pub description: String,
    pub description_html: Option<String>,
    pub steps: Vec<ExecutableItem>,
    pub attachments: Vec<Attachment>,
    pub parameters: Vec<Parameter>,
    pub start: u128,
    pub stop: u128,
}

/// The record of a step.
pub type StepResult = ExecutableItem;

/// The record of a fixture.
pub type FixtureResult = ExecutableItem;

/// The record of one repeat of a job.
#[derive(Debug, PartialEq, Eq)]
pub struct TestResult {
    pub item: ExecutableItem,
    pub uuid: u128,
    pub history_id: Option<u128>,
    pub full_name: String,
    pub test_case_id: u128,
    pub rerun_of: Option<u128>,
    pub labels: Vec<Label>,
    pub links: Vec<Link>,
}

/// The record of a container of tests.
#[derive(Debug, PartialEq, Eq)]
pub struct TestResultContainer {
    pub uuid: u128,
    pub name: String,
    pub children: Vec<u128>,
    pub description: String,
    pub description_html: String,
    pub befores: Vec<FixtureResult>,
    pub afters: Vec<FixtureResult>,
    pub links: Vec<Link>,
    pub start: u128,
    pub stop: u128,
}

/// What ran the tests.
#[derive(Debug, Clone, PartialEq, Eq)]
pub struct ExecutorInfo {
    pub name: String,
    pub kind: String,
    pub url: String,
    pub build_order: u64,
    pub build_name: String,
    pub build_url: String,
    pub report_url: String,
    pub report_name: String,
}

/// How much a failure of a test matters.
#[derive(Debug, Clone, Copy, PartialEq, Eq, Structural)]
pub enum Severity {
    Blocker,
    Critical,
    Normal,
    Minor,
    Trivial,
}

/// A category of failures: the statuses it takes, and the sources of the
/// regular expressions that a message and a trace must match.
#[derive(Debug, Clone, PartialEq, Eq)]
pub struct Category {
    pub name: String,
    pub description: String,
    pub description_html: String,
    pub message_regex: String,
    pub trace_regex: String,
    pub matched_statuses: Vec<Status>,
    pub flaky: bool,
}

/// The parts of an [`ExecutableItem`] that have been given so far.
pub struct ExecutableItemBuilder {
    pub name: Option<String>,
    pub status: Option<Status>,
    pub status_details: Option<StatusDetails>,
    pub stage: Option<Stage>,
    pub description: Option<String>,
    pub description_html: Option<Option<String>>,
    pub steps: Option<Vec<ExecutableItem>>,
    pub attachments: Option<Vec<Attachment>>,
    pub parameters: Option<Vec<Parameter>>,
    pub start: Option<u128>,
    pub stop: Option<u128>,
}

/// The message of the error for a part that a record needs and that was not
/// given.
pub open spec fn missing(field: Seq<char>) -> Seq<char> {
    "`"@ + field + "` must be initialized"@
}

/// Builds the message of the error for a part that was not given.
fn missing_field(field: &str) -> (r: String)
    ensures
        r@ == missing(field@),
{
    let mut message = String::from_str("`");
    message.append(field);
    message.append("` must be initialized");
    message
}

impl ExecutableItemBuilder {
    /// The first part that an item needs and that was not given: the name,
    /// the status, its details, the start or the stop, in this order.
    pub open spec fn first_missing(self) -> Option<Seq<char>> {
        if self.name is None {
            Some("name"@)
        } else if self.status is None {
            Some("status"@)
        } else if self.status_details is None {
            Some("status_details"@)
        } else if self.start is None {
            Some("start"@)
        } else if self.stop is None {
            Some("stop"@)
        } else {
            None
        }
    }

    /// Gives the name.
    pub fn name(self, name: String) -> (r: ExecutableItemBuilder)
        ensures
            r == (ExecutableItemBuilder { name: Some(name), ..self }),
    {
        ExecutableItemBuilder { name: Some(name), ..self }
    }

    /// Gives the status.
    pub fn status(self, status: Status) -> (r: ExecutableItemBuilder)
        ensures
            r == (ExecutableItemBuilder { status: Some(status), ..self }),
    {
        ExecutableItemBuilder { status: Some(status), ..self }
    }

    /// Gives the details of the status.
    pub fn status_details(self, status_details: StatusDetails) -> (r: ExecutableItemBuilder)
        ensures
            r == (ExecutableItemBuilder { status_details: Some(status_details), ..self }),
    {
        ExecutableItemBuilder { status_details: Some(status_details), ..self }
    }

    /// Gives the stage.
    pub fn stage(self, stage: Stage) -> (r: ExecutableItemBuilder)
        ensures
            r == (ExecutableItemBuilder { stage: Some(stage), ..self }),
    {
        ExecutableItemBuilder { stage: Some(stage), ..self }
    }

    /// Gives the description.
    pub fn description(self, description: String) -> (r: ExecutableItemBuilder)
        ensures
            r == (ExecutableItemBuilder { description: Some(description), ..self }),
    {
        ExecutableItemBuilder { description: Some(description), ..self }
    }

    /// Gives the description as HTML.
    pub fn description_html(self, description_html: Option<String>) -> (r: ExecutableItemBuilder)
        ensures
            r == (ExecutableItemBuilder { description_html: Some(description_html), ..self }),
    {
        ExecutableItemBuilder { description_html: Some(description_html), ..self }
    }

    /// Gives the steps.
    pub fn steps(self, steps: Vec<ExecutableItem>) -> (r: ExecutableItemBuilder)
        ensures
            r == (ExecutableItemBuilder { steps: Some(steps), ..self }),
    {
        ExecutableItemBuilder { steps: Some(steps), ..self }
    }

    /// Gives the attachments.
    pub fn attachments(self, attachments: Vec<Attachment>) -> (r: ExecutableItemBuilder)
        ensures
            r == (ExecutableItemBuilder { attachments: Some(attachments), ..self }),
    {
        ExecutableItemBuilder { attachments: Some(attachments), ..self }
    }

    /// Gives the parameters.
    pub fn parameters(self, parameters: Vec<Parameter>) -> (r: ExecutableItemBuilder)
        ensures
            r == (ExecutableItemBuilder { parameters: Some(parameters), ..self }),
    {
        ExecutableItemBuilder { parameters: Some(parameters), ..self }
    }

    /// Gives the start.
    pub fn start(self, start: u128) -> (r: ExecutableItemBuilder)
        ensures
            r == (ExecutableItemBuilder { start: Some(start), ..self }),
    {
        ExecutableItemBuilder { start: Some(start), ..self }
    }

    /// Gives the stop.
    pub fn stop(self, stop: u128) -> (r: ExecutableItemBuilder)
        ensures
            r == (ExecutableItemBuilder { stop: Some(stop), ..self }),
    {
        ExecutableItemBuilder { stop: Some(stop), ..self }
    }

    /// The item that the given parts make, or the message that names the
    /// first part that is needed and was not given. A part that was not
    /// given and is not needed is the finished stage, an empty text, no text
    /// or an empty list.
    pub fn build(self) -> (r: Result<ExecutableItem, String>)
        ensures
            match self.first_missing() {
                None => r matches Ok(item) && item.name == self.name->0 && item.status
                    == self.status->0 && item.status_details == self.status_details->0
                    && item.start == self.start->0 && item.stop == self.stop->0 && item.stage == (
                match self.stage {
                    Some(stage) => stage,
                    None => Stage::Finished,
                }) && item.description@ == (match self.description {
                    Some(description) => description@,
                    None => Seq::empty(),
                }) && item.description_html == (match self.description_html {
                    Some(description_html) => description_html,
                    None => None,
                }) && item.steps@ == (match self.steps {
                    Some(steps) => steps@,
                    None => Seq::empty(),
                }) && item.attachments@ == (match self.attachments {
                    Some(attachments) => attachments@,
                    None => Seq::empty(),
                }) && item.parameters@ == (match self.parameters {
                    Some(parameters) => parameters@,
                    None => Seq::empty(),
                }),
                Some(field) => r matches Err(message) && message@ == missing(field),
            },
    {
        let name = match self.name {
            Some(name) => name,
            None => {
                return Err(missing_field("name"));
            },
        };
        let status = match self.status {
            Some(status) => status,
            None => {
                return Err(missing_field("status"));
            },
        };
        let status_details = match self.status_details {
            Some(status_details) => status_details,
            None => {
                return Err(missing_field("status_details"));
            },
        };
        let start = match self.start {
            Some(start) => start,
            None => {
                return Err(missing_field("start"));
            },
        };
        let stop = match self.stop {
            Some(stop) => stop,
            None => {
                return Err(missing_field("stop"));
            },
        };
        Ok(
            ExecutableItem {
                name,
                status,
                status_details,
                stage: match self.stage {
                    Some(stage) => stage,
                    None => Stage::Finished,
                },
                description: match self.description {
                    Some(description) => description,
                    None => String::new(),
                },
                description_html: match self.description_html {
                    Some(description_html) => description_html,
                    None => None,
                },
                steps: match self.steps {
                    Some(steps) => steps,
                    None => Vec::new(),
                },
                attachments: match self.attachments {
                    Some(attachments) => attachments,
                    None => Vec::new(),
                },
                parameters: match self.parameters {
                    Some(parameters) => parameters,
                    None => Vec::new(),
                },
                start,
                stop,
            },
        )
    }
}

impl ExecutableItem {
    /// A builder to which no part has been given.
    pub fn builder() -> (r: ExecutableItemBuilder)
        ensures
            r == (ExecutableItemBuilder {
                name: None,
                status: None,
                status_details: None,
                stage: None,
                description: None,
                description_html: None,
                steps: None,
                attachments: None,
                parameters: None,
                start: None,
                stop: None,
            }),
    {
        ExecutableItemBuilder {
            name: None,
            status: None,
            status_details: None,
            stage: None,
            description: None,
            description_html: None,
            steps: None,
            attachments: None,
            parameters: None,
            start: None,
            stop: None,
        }
    }
}

/// The parts of a [`TestResult`] that have been given so far.
pub struct TestResultBuilder {
    pub item: Option<ExecutableItem>,
    pub uuid: Option<u128>,
    pub history_id: Option<Option<u128>>,
    pub full_name: Option<String>,
    pub test_case_id: Option<u128>,
    pub rerun_of: Option<Option<u128>>,
    pub labels: Option<Vec<Label>>,
    pub links: Option<Vec<Link>>,
}

impl TestResultBuilder {
    /// The first part that a record needs and that was not given: the item,
    /// the identifier, the full name or the identifier of the test case, in
    /// this order.
    pub open spec fn first_missing(self) -> Option<Seq<char>> {
        if self.item is None {
            Some("item"@)
        } else if self.uuid is None {
            Some("uuid"@)
        } else if self.full_name is None {
            Some("full_name"@)
        } else if self.test_case_id is None {
            Some("test_case_id"@)
        } else {
            None
        }
    }

    /// Gives the item.
    pub fn item(self, item: ExecutableItem) -> (r: TestResultBuilder)
        ensures
            r == (TestResultBuilder { item: Some(item), ..self }),
    {
        TestResultBuilder { item: Some(item), ..self }
    }

    /// Gives the identifier.
    pub fn uuid(self, uuid: u128) -> (r: TestResultBuilder)
        ensures
            r == (TestResultBuilder { uuid: Some(uuid), ..self }),
    {
        TestResultBuilder { uuid: Some(uuid), ..self }
    }

    /// Gives the identifier of the history.
    pub fn history_id(self, history_id: Option<u128>) -> (r: TestResultBuilder)
        ensures
            r == (TestResultBuilder { history_id: Some(history_id), ..self }),
    {
        TestResultBuilder { history_id: Some(history_id), ..self }
    }

    /// Gives the full name.
    pub fn full_name(self, full_name: String) -> (r: TestResultBuilder)
        ensures
            r == (TestResultBuilder { full_name: Some(full_name), ..self }),
    {
        TestResultBuilder { full_name: Some(full_name), ..self }
    }

    /// Gives the identifier of the test case.
    pub fn test_case_id(self, test_case_id: u128) -> (r: TestResultBuilder)
        ensures
            r == (TestResultBuilder { test_case_id: Some(test_case_id), ..self }),
    {
        TestResultBuilder { test_case_id: Some(test_case_id), ..self }
    }

    /// Gives the identifier of the record that is rerun.
    pub fn rerun_of(self, rerun_of: Option<u128>) -> (r: TestResultBuilder)
        ensures
            r == (TestResultBuilder { rerun_of: Some(rerun_of), ..self }),
    {
        TestResultBuilder { rerun_of: Some(rerun_of), ..self }
    }

    /// Gives the labels.
    pub fn labels(self, labels: Vec<Label>) -> (r: TestResultBuilder)
        ensures
            r == (TestResultBuilder { labels: Some(labels), ..self }),
    {
        TestResultBuilder { labels: Some(labels), ..self }
    }

    /// Gives the links.
    pub fn links(self, links: Vec<Link>) -> (r: TestResultBuilder)
        ensures
            r == (TestResultBuilder { links: Some(links), ..self }),
    {
        TestResultBuilder { links: Some(links), ..self }
    }

    /// The record that the given parts make, or the message that names the
    /// first part that is needed and was not given. A part that was not
    /// given and is not needed is no identifier or an empty list.
    pub fn build(self) -> (r: Result<TestResult, String>)
        ensures
            match self.first_missing() {
                None => r matches Ok(result) && result.item == self.item->0 && result.uuid
                    == self.uuid->0 && result.full_name == self.full_name->0 && result.test_case_id
                    == self.test_case_id->0 && result.history_id == (match self.history_id {
                    Some(id) => id,
                    None => None,
                }) && result.rerun_of == (match self.rerun_of {
                    Some(id) => id,
                    None => None,
                }) && result.labels@ == (match self.labels {
                    Some(labels) => labels@,
                    None => Seq::empty(),
                }) && result.links@ == (match self.links {
                    Some(links) => links@,
                    None => Seq::empty(),
                }),
                Some(field) => r matches Err(message) && message@ == missing(field),
            },
    {
        let item = match self.item {
            Some(item) => item,
            None => {
                return Err(missing_field("item"));
            },
        };
        let uuid = match self.uuid {
            Some(uuid) => uuid,
            None => {
                return Err(missing_field("uuid"));
            },
        };
        let full_name = match self.full_name {
            Some(full_name) => full_name,
            None => {
                return Err(missing_field("full_name"));
            },
        };
        let test_case_id = match self.test_case_id {
            Some(test_case_id) => test_case_id,
            None => {
                return Err(missing_field("test_case_id"));
            },
        };
        Ok(
            TestResult {
                item,
                uuid,
                history_id: match self.history_id {
                    Some(id) => id,
                    None => None,
                },
                full_name,
                test_case_id,
                rerun_of: match self.rerun_of {
                    Some(id) => id,
                    None => None,
                },
                labels: match self.labels {
                    Some(labels) => labels,
                    None => Vec::new(),
                },
                links: match self.links {
                    Some(links) => links,
                    None => Vec::new(),
                },
            },
        )
    }
}

impl TestResult {
    /// A builder to which no part has been given.
    pub fn builder() -> (r: TestResultBuilder)
        ensures
            r == (TestResultBuilder {
                item: None,
                uuid: None,
                history_id: None,
                full_name: None,
                test_case_id: None,
                rerun_of: None,
                labels: None,
                links: None,
            }),
    {
        TestResultBuilder {
            item: None,
            uuid: None,
            history_id: None,
            full_name: None,
            test_case_id: None,
            rerun_of: None,
            labels: None,
            links: None,
        }
    }

    /// The record's identifier.
    pub fn uuid(&self) -> (r: u128)
        ensures
            r == self.uuid,
    {
        self.uuid
    }
}

} // verus!
