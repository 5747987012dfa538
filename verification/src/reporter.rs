//! Report records, in the layout that Allure reads.

pub mod allure;
pub mod serialize;
