//! Bootstraps a Help Center theme project from a reference theme archive.
//!
//! The crate holds the decisions of the pipeline and none of its I/O: which
//! archive entries become which files, how the project manifest is rewritten,
//! where the stylesheet link goes in the document head, and in which order the
//! stages run. A caller fetches bytes, reads and writes files, and hands the
//! library plain values.

pub mod archive;
pub mod bytes;
pub mod clear;
pub mod customize;
pub mod extract;
pub mod fetch;
pub mod json;
pub mod manifest;
pub mod members;
pub mod orchestrator;
pub mod path;
pub mod steps;
pub mod tailwind;
pub mod template;
