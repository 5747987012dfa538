//! Stages of a test's life.

use vstd::prelude::*;

verus! {

/// How far a test has come.
#[derive(Debug, Clone, Copy, PartialEq, Eq, Structural)]
pub enum Stage {
    Scheduled,
    Running,
    Finished,
    Pending,
    Interrupted,
}

impl Stage {
    /// The name under which the stage is written.
    pub open spec fn tag(self) -> Seq<char> {
        match self {
            Stage::Scheduled => "scheduled"@,
            Stage::Running => "running"@,
            Stage::Finished => "finished"@,
            Stage::Pending => "pending"@,
            Stage::Interrupted => "interrupted"@,
        }
    }

    /// The name under which the stage is written.
    pub fn name(&self) -> (r: &'static str)
        ensures
            r@ == self.tag(),
    {
        match self {
            Stage::Scheduled => "scheduled",
            Stage::Running => "running",
            Stage::Finished => "finished",
            Stage::Pending => "pending",
            Stage::Interrupted => "interrupted",
        }
    }
}

} // verus!
