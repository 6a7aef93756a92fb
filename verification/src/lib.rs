//! Extraction of structured page records from markup, and the bookkeeping of
//! a bounded batch of scrape tasks.

pub mod batch;
pub mod engine;
pub mod error;
pub mod guarantees;
pub mod markup;
pub mod models;
pub mod output;
pub mod parser;
