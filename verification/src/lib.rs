//! Verified core of a file-integrity checker.
//!
//! The library computes and compares content digests, parses checksum
//! manifests into records, and drives a per-record verification pipeline.
//! All file reading, argument handling and printing live outside the
//! library; callers hand in plain bytes and strings and get tagged
//! results back.

pub mod command;
pub mod digest;
pub mod manifest;
pub mod pipeline;
pub mod records;
pub mod status;
