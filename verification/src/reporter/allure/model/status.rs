//! How a step or a test ended.

use vstd::prelude::*;

verus! {

/// What is said about how a step or a test ended.
#[derive(Debug, Clone, PartialEq, Eq)]
pub struct StatusDetails {
    pub message: String,
    pub trace: Option<String>,
}

impl Default for StatusDetails {
    fn default() -> (r: StatusDetails)
        ensures
            r.message@ == Seq::<char>::empty(),
            r.trace is None,
    {
        StatusDetails { message: String::new(), trace: None }
    }
}

impl StatusDetails {
    /// Details that hold `message` and no trace.
    pub fn with_message(message: String) -> (r: StatusDetails)
        ensures
            r.message == message,
            r.trace is None,
    {
        StatusDetails { message, trace: None }
    }
}

impl From<String> for StatusDetails {
    fn from(message: String) -> (r: StatusDetails) {
        StatusDetails::with_message(message)
    }
}

impl vstd::std_specs::convert::FromSpecImpl<String> for StatusDetails {
    open spec fn obeys_from_spec() -> bool {
        true
    }

    open spec fn from_spec(message: String) -> StatusDetails {
        StatusDetails { message, trace: None }
    }
}

/// How a step or a test ended.
#[derive(Debug, Clone, Copy, PartialEq, Eq, Structural)]
pub enum Status {
    Failed,
    Broken,
    Passed,
    Skipped,
}

impl Status {
    /// The name under which the status is written.
    pub open spec fn tag(self) -> Seq<char> {
        match self {
            Status::Failed => "failed"@,
            Status::Broken => "broken"@,
            Status::Passed => "passed"@,
            Status::Skipped => "skipped"@,
        }
    }

    /// The name under which the status is written.
    pub fn name(&self) -> (r: &'static str)
        ensures
            r@ == self.tag(),
    {
        match self {
            Status::Failed => "failed",
            Status::Broken => "broken",
            Status::Passed => "passed",
            Status::Skipped => "skipped",
        }
    }

    /// How grave a status is: broken is graver than failed, and failed than
    /// passed or skipped.
    pub open spec fn rank(self) -> nat {
        match self {
            Status::Broken => 2,
            Status::Failed => 1,
            Status::Passed => 0,
            Status::Skipped => 0,
        }
    }

    /// The graver of two statuses; the first where both are as grave.
    pub fn worse(self, other: Status) -> (r: Status)
        ensures
            r == (if other.rank() > self.rank() {
                other
            } else {
                self
            }),
    {
        match (self, other) {
            (Status::Broken, _) => self,
            (_, Status::Broken) => other,
            (Status::Failed, _) => self,
            (_, Status::Failed) => other,
            _ => self,
        }
    }
}

} // verus!
