//! A sequential web crawler engine: URL resolution, link extraction, the
//! visited set and frontier of a traversal, and a stopwatch for timing it.
//!
//! Network access is left to the caller: the traversal is a state machine
//! that asks for probes and fetches and is told their outcomes.

pub mod crawl;
pub mod links;
pub mod resolve;
pub mod stopwatch;
