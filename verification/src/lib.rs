//! Bulk file-fingerprinting pipeline: an explorer walks a directory tree and
//! feeds file paths to a pool of workers, each of which streams a file's bytes
//! once through a configurable set of hash accumulators and emits one
//! delimited text record per file.
//!
//! This crate holds the verified core: the algorithm registry and its
//! validation, the streaming accumulators, the single-pass multi-algorithm
//! hashing, the record formatting, and the explorer's and workers' decision
//! logic. The surrounding process (argument handling, the async runtime, file
//! and directory I/O) drives these pieces from outside.

pub mod emitter;
pub mod explorer;
pub mod hasher_wrapper;
pub mod hashing;
pub mod registry;
pub mod text;
pub mod worker;

pub use registry::check_hash;
pub use registry::default_hash;
pub use registry::variants;
pub use registry::variants as hash_variants;
