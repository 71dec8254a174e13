//! A store of questions and answers that lives in memory, with the rules by which requests
//! read and change it. Every function is verified against its contract.
//!
//! - [`table`]: the collection both kinds of record are kept in, a map keyed by text that
//!   keeps the order in which its keys first came.
//! - [`types`]: questions, answers, and the range of a listing with its resolver.
//! - [`store`]: the store itself, and what holds of it after any sequence of operations.
//! - [`routes`]: what each request does to the store and what it answers.
//! - [`error`], [`response`]: the errors, and what a caller is told.
//!
//! The store and its collections are plain values: whoever shares them between tasks puts
//! each collection behind a lock.

pub mod error;
pub mod response;
pub mod routes;
pub mod store;
pub mod table;
pub mod types;
