//! The crates that the engine calls, each behind a contract that is
//! believed and not proved.

pub mod base64;
pub mod clock;
pub mod csv;
pub mod ident;
pub mod json;
pub mod number;
pub mod pattern;
pub mod template;
pub mod text;
