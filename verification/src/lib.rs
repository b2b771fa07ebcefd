//! A verified core for a parallel find-and-grep utility.
//!
//! The library holds the pure logic of the search pipeline: the byte-level
//! substring matcher, the error aggregation combinator, the name-match
//! predicates, the work-dispatch decisions, and the result formatting.
//! The surrounding process (argument parsing, filesystem access, memory
//! mapping, the thread pool and the channels) lives outside the library and
//! exchanges plain values with it.

pub mod aggregate;
pub mod errors;
pub mod matcher;
pub mod names;
pub mod result;
pub mod walker;
