//! Bounded-window paginated collection of search results.
//!
//! The library holds the decisions of a collection run: which page to ask
//! for next, which entities to keep, when to retry a failed call, and when to
//! narrow the search window or stop. Performing the requests, sleeping
//! between retries and persisting the result is left to the caller.

pub mod user;
pub mod dedup;
pub mod retry;
pub mod window;
pub mod page;
pub mod collector;
pub mod blacklist;
pub mod output;
pub mod preset;
