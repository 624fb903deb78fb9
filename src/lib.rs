//! Subdomain enumeration: candidate words are joined to a domain, looked up
//! under a concurrency budget, and the answers are written as fixed-width
//! table lines with their private-address classification.
//!
//! The library holds the decisions of a run; the caller performs the
//! lookups and the writes.
use vstd::prelude::*;

pub mod classify;
pub mod record;
pub mod sink;
pub mod engine;
pub mod scan;
pub mod config;

verus! {

} // verus!
