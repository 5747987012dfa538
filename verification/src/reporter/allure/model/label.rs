//! Labels of a test.

use vstd::prelude::*;

verus! {

/// A label of a test. A suite and a language carry a value; the others are
/// names alone.
#[derive(Debug, Clone, PartialEq, Eq)]
pub enum Label {
    AsId,
    Suite(String),
    ParentSuite,
    SubSuite,
    Epic,
    Feature,
    Story,
    Severity,
    Tag,
    Owner,
    Lead,
    Host,
    Thread,
    TestMethod,
    TestClass,
    Package,
    Framework,
    Language(String),
}

impl Label {
    /// The name under which the label is written: the variant's name in
    /// upper case, its words parted by underscores.
    pub open spec fn tag(self) -> Seq<char> {
        match self {
            Label::AsId => "AS_ID"@,
            Label::Suite(_) => "SUITE"@,
            Label::ParentSuite => "PARENT_SUITE"@,
            Label::SubSuite => "SUB_SUITE"@,
            Label::Epic => "EPIC"@,
            Label::Feature => "FEATURE"@,
            Label::Story => "STORY"@,
            Label::Severity => "SEVERITY"@,
            Label::Tag => "TAG"@,
            Label::Owner => "OWNER"@,
            Label::Lead => "LEAD"@,
            Label::Host => "HOST"@,
            Label::Thread => "THREAD"@,
            Label::TestMethod => "TEST_METHOD"@,
            Label::TestClass => "TEST_CLASS"@,
            Label::Package => "PACKAGE"@,
            Label::Framework => "FRAMEWORK"@,
            Label::Language(_) => "LANGUAGE"@,
        }
    }

    /// The value that the label carries, if it carries one.
    pub open spec fn content(self) -> Option<Seq<char>> {
        match self {
            Label::Suite(value) => Some(value@),
            Label::Language(value) => Some(value@),
            _ => None,
        }
    }

    /// The name under which the label is written.
    pub fn name(&self) -> (r: &'static str)
        ensures
            r@ == self.tag(),
    {
        match self {
            Label::AsId => "AS_ID",
            Label::Suite(_) => "SUITE",
            Label::ParentSuite => "PARENT_SUITE",
            Label::SubSuite => "SUB_SUITE",
            Label::Epic => "EPIC",
            Label::Feature => "FEATURE",
            Label::Story => "STORY",
            Label::Severity => "SEVERITY",
            Label::Tag => "TAG",
            Label::Owner => "OWNER",
            Label::Lead => "LEAD",
            Label::Host => "HOST",
            Label::Thread => "THREAD",
            Label::TestMethod => "TEST_METHOD",
            Label::TestClass => "TEST_CLASS",
            Label::Package => "PACKAGE",
            Label::Framework => "FRAMEWORK",
            Label::Language(_) => "LANGUAGE",
        }
    }

    /// The value that the label carries, if it carries one.
    pub fn value(&self) -> (r: Option<&str>)
        ensures
            r matches Some(value) ==> self.content() == Some(value@),
            r is None ==> self.content() is None,
    {
        match self {
            Label::Suite(value) => Some(value.as_str()),
            Label::Language(value) => Some(value.as_str()),
            _ => None,
        }
    }
}

} // verus!
