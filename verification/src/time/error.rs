//! What can go wrong while a duration literal is read.

use vstd::prelude::*;

verus! {

/// The reason why a text is no duration or no unit of time.
#[derive(Clone, Debug, PartialEq, Eq)]
#[non_exhaustive]
pub enum Error {
    Syntax(String),
    UnitNotSupported(String),
}

impl Error {
    /// The message that the error carries.
    pub open spec fn text(&self) -> Seq<char> {
        match self {
            Error::Syntax(m) => m@,
            Error::UnitNotSupported(m) => m@,
        }
    }

    /// The message that the error carries.
    pub fn description(&self) -> (r: &str)
        ensures
            r@ == self.text(),
    {
        match self {
            Error::Syntax(m) => m.as_str(),
            Error::UnitNotSupported(m) => m.as_str(),
        }
    }

    /// The message alone, as the error is shown to a user.
    pub fn to_string(&self) -> (r: String)
        ensures
            r@ == self.text(),
    {
        self.description().to_owned()
    }

    /// The message set between two rules of 79 tildes, as the error is shown
    /// in logs.
    pub fn debug_string(&self) -> (r: String)
        ensures
            r@ == crate::text::boxed(self.text()),
    {
        crate::text::boxed_text(self.description())
    }
}

} // verus!
