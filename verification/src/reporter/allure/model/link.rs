//! Links from a record to other systems.

use vstd::prelude::*;

verus! {

/// What a link leads to.
#[derive(Debug, Clone, Copy, PartialEq, Eq, Structural)]
pub enum LinkType {
    Issue,
    Tms,
    Custom,
}

/// A link: its name, its address and what it leads to.
#[derive(Debug, Clone, PartialEq, Eq)]
pub struct Link {
    pub name: String,
    pub url: String,
    pub kind: LinkType,
}

impl LinkType {
    /// The name under which the kind of link is written.
    pub open spec fn tag(self) -> Seq<char> {
        match self {
            LinkType::Issue => "issue"@,
            LinkType::Tms => "tms"@,
            LinkType::Custom => "custom"@,
        }
    }

    /// The name under which the kind of link is written.
    pub fn name(&self) -> (r: &'static str)
        ensures
            r@ == self.tag(),
    {
        match self {
            LinkType::Issue => "issue",
            LinkType::Tms => "tms",
            LinkType::Custom => "custom",
        }
    }
}

} // verus!
