//! Filtering and summarising sequence records by identifier.

pub mod collect;
pub mod count;
pub mod counters;
pub mod error;
pub mod filter;
pub mod headers;
pub mod laws;
pub mod plan;
pub mod record;
pub mod sink;
pub mod text;
