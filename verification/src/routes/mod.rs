//! What each request does to the store, and what it answers.
//!
//! Each function takes the collections that its request reads or changes, and no more.

pub mod answer;
pub mod question;
