//! Engine for declarative HTTP pipelines: values, contexts, captures,
//! assertions, operations, scheduling decisions and report records.

pub mod adapters;
pub mod app;
pub mod configuration;
pub mod markup;
pub mod number;
pub mod reporter;
pub mod text;
pub mod time;
