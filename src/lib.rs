//! Batch gzip compression of line-delimited JSON corpora organised by
//! language code.
//!
//! Paths are handled as sequences of components (`Vec<String>`): the caller
//! splits a path into its components and joins them back. The library decides
//! which files are compressed, where each compressed file goes, how each job
//! proceeds and ends, and how outcomes are counted.
pub mod text;
pub mod filter;
pub mod paths;
pub mod job;
pub mod progress;
pub mod options;
pub mod gzip;
