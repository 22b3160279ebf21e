//! Temporal data model and derivation pipeline of a life timeline: points of
//! interest with variant-precision start times, a repository kept in step with
//! a text index and a category index, and the layout metrics derived from them.

pub mod date;
pub mod error;
pub mod ident;
pub mod time;
pub mod types;
pub mod search;
pub mod slots;
pub mod data;
pub mod viewstate;
pub mod laws;
pub mod examples;
