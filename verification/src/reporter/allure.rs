//! Suites, groups and tests, and the records that are written for them.

use vstd::prelude::*;
use crate::time::timeunit::Duration;

pub mod model;

verus! {

/// How a test ended.
#[derive(Debug, Clone, Copy, PartialEq, Eq, Structural)]
pub enum Status {
    Skipped,
    Failed,
    Passed,
    Broken,
}

/// A test: its id, its name, when it ran and how it ended.
#[derive(Debug, Clone)]
pub struct Test {
    pub id: u128,
    pub name: String,
    pub start: Duration,
    pub stop: Duration,
    pub status: Status,
}

/// A group of tests.
#[derive(Debug, Clone)]
pub struct Group {
    pub id: u128,
    pub name: String,
    pub tests: Vec<Test>,
    pub start: Duration,
    pub stop: Duration,
}

/// A suite of groups.
#[derive(Debug)]
pub struct Suite {
    pub id: u128,
    pub name: String,
    pub groups: Vec<Group>,
    pub start: Duration,
    pub stop: Duration,
}

/// What follows a report through its stages.
pub trait Lifecycle {
}

/// What hands reports on to a sink.
pub trait Adapter {
}

} // verus!
