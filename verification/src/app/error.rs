//! What can go wrong while a pipeline runs.

use vstd::prelude::*;

verus! {

/// The reason why a step of a pipeline did not succeed.
///
/// Every variant carries a message, but for `IncorrectValueType`, which
/// carries the name of the type that was found.
#[derive(Clone, Debug, PartialEq, Eq)]
#[non_exhaustive]
pub enum Error {
    AssertionFailed(String),
    ValueNotFound(String),
    Connection(String),
    Syntax(String),
    Internal(String),
    IncorrectValueType(String),
}

/// The mathematical content of an [`Error`]: its kind and its text.
pub enum ErrorModel {
    AssertionFailed(Seq<char>),
    ValueNotFound(Seq<char>),
    Connection(Seq<char>),
    Syntax(Seq<char>),
    Internal(Seq<char>),
    IncorrectValueType(Seq<char>),
}

impl View for Error {
    type V = ErrorModel;

    open spec fn view(&self) -> ErrorModel {
        match self {
            Error::AssertionFailed(m) => ErrorModel::AssertionFailed(m@),
            Error::ValueNotFound(m) => ErrorModel::ValueNotFound(m@),
            Error::Connection(m) => ErrorModel::Connection(m@),
            Error::Syntax(m) => ErrorModel::Syntax(m@),
            Error::Internal(m) => ErrorModel::Internal(m@),
            Error::IncorrectValueType(m) => ErrorModel::IncorrectValueType(m@),
        }
    }
}

impl Error {
    /// The text that the error carries.
    pub open spec fn text(&self) -> Seq<char> {
        match self {
            Error::AssertionFailed(m) => m@,
            Error::ValueNotFound(m) => m@,
            Error::Connection(m) => m@,
            Error::Syntax(m) => m@,
            Error::Internal(m) => m@,
            Error::IncorrectValueType(m) => m@,
        }
    }

    /// The text that the error carries.
    pub fn description(&self) -> (r: &str)
        ensures
            r@ == self.text(),
    {
        match self {
            Error::AssertionFailed(m) => m.as_str(),
            Error::ValueNotFound(m) => m.as_str(),
            Error::Connection(m) => m.as_str(),
            Error::Syntax(m) => m.as_str(),
            Error::Internal(m) => m.as_str(),
            Error::IncorrectValueType(m) => m.as_str(),
        }
    }

    /// The text alone, as the error is shown to a user.
    pub fn to_string(&self) -> (r: String)
        ensures
            r@ == self.text(),
    {
        self.description().to_owned()
    }

    /// The text set between two rules of 79 tildes, as the error is shown in
    /// logs.
    pub fn debug_string(&self) -> (r: String)
        ensures
            r@ == crate::text::boxed(self.text()),
    {
        crate::text::boxed_text(self.description())
    }
}

} // verus!
