//! Verified core of a zip-archive extraction tool.
//!
//! The library holds the logic of an extraction run: resolving an entry's
//! stored path to a destination under a root directory, deciding what to do
//! with each entry, aggregating byte totals and per-entry error reports, and
//! scheduling progress updates. The surrounding binary performs the actual
//! archive decoding and filesystem work and feeds the outcomes back in.

pub mod engine;
pub mod paths;
pub mod plan;
pub mod progress;
pub mod run;
