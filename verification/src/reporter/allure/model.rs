//! The records of a report and the parts they are made of.

pub mod attachment;
pub mod label;
pub mod link;
pub mod parameter;
pub mod stage;
pub mod status;
pub mod test_result;
