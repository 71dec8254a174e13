//! The records the store keeps, and the range of a listing.

pub mod answer;
pub mod pagination;
pub mod question;
