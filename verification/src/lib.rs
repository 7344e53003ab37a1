//! Orchestration and classification logic for a driver of external
//! verification backends: it plans the build of a bitcode artifact,
//! resolves the entry points to verify, classifies each backend's raw
//! textual output into a verification status, and aggregates the results.
//!
//! Everything here is pure logic over plain values; the subprocess and
//! filesystem work around it lives in the accompanying application.

pub mod errors;
pub mod floors;
pub mod floors_sum;
pub mod klee;
pub mod opt;
pub mod pipeline;
pub mod presents;
pub mod marker;
pub mod proptest;
pub mod resolve;
pub mod schedule;
pub mod seahorn;
pub mod symbols;
pub mod status;
pub mod text;
pub mod utils;
