//! Batch video summarisation pipeline.
//!
//! Collections of source videos, grouped by input directory, are condensed
//! into one summary video per directory by sampling frames at a fixed
//! interval and re-encoding them.  This crate holds the verified core of
//! that pipeline: directory scanning and grouping, job planning, the
//! extraction and assembly strategies' decision logic, deterministic frame
//! ordering, and the registry that guarantees each staging directory is
//! removed exactly once.  Decoding and encoding themselves are performed by
//! an opaque frame decoder and an external transcoder; the surrounding
//! driver feeds their outcomes into the state kept here.

pub mod config;
pub mod factories;
pub mod orderer;
pub mod plan;
pub mod processor;
pub mod registry;
pub mod sampling;
pub mod scanner;
pub mod stats;
pub mod supervisor;
pub mod text;
pub mod transcode;
pub mod types;
pub mod writer;
