//! Runtime orchestrator for an instrumentation harness: the verified core of a
//! command-line tool that prepares an instrumented working copy of a project,
//! runs a user command in it, extracts trace envelopes from the child's
//! stdout, batches and ships records, and restores the workspace afterwards.

pub mod auth;
pub mod backup;
pub mod batching;
pub mod classifier;
pub mod collector;
pub mod config;
pub mod exit;
pub mod extractor;
pub mod gitignore;
pub mod jsonio;
pub mod machine;
pub mod manifest;
pub mod mode;
pub mod output;
pub mod paths;
pub mod shipper;
pub mod strutil;
pub mod vault;
pub mod wire;
