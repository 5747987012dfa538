//! Duration literals.

pub mod error;
pub mod timeunit;
