//! Ledger records and the query language that selects them.
//!
//! The heart of the crate is [`query::Query`], a tree of filter criteria, and
//! the functions that simplify it and match it against account names. The
//! mathematical model that the contracts speak of lives in [`predicate`].

pub mod amount;
pub mod calendar;
pub mod commodity;
pub mod decimal;
pub mod journal;
pub mod pattern;
pub mod posting;
pub mod predicate;
pub mod price;
pub mod quantity;
pub mod query;
pub mod selection;
pub mod transaction;
