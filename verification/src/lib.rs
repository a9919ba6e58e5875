//! A rule-driven disk-space reclamation core.
//!
//! Given a catalog of cleanup rules (cache folders, temporary paths, orphaned
//! installer residue, orphaned uninstall registrations, tool-invoked cleanups)
//! this library decides, per rule, what a scan or a clean pass reports: which
//! files count, which status the rule ends in, and how the per-rule results
//! roll up into category and volume summaries.
//!
//! The library itself performs no I/O. The caller walks directories, runs
//! tools, deletes files and enumerates registration records; it hands the
//! observed outcomes to this crate as plain values, and every decision taken
//! over them is verified. The one outside crate the logic calls is `glob`,
//! for pattern matching, behind a trusted contract.

pub mod text;
pub mod expand;
pub mod thresholds;
pub mod matcher;
pub mod model;
pub mod walk;
pub mod registry;
pub mod residue;
pub mod scan;
pub mod cleanup;
pub mod summary;
