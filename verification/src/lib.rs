//! Staged-file resolution and pattern dispatch for a pre-commit task runner.
//!
//! The crate decides, from plain values, which commands run on which staged
//! files: it normalises the rule set, resolves the staged paths from the
//! deltas of a diff, filters them per rule and assembles the command lines,
//! and folds the outcomes of the processes into a report.

pub mod cli;
pub mod command;
pub mod config;
pub mod dispatch;
pub mod json;
pub mod matcher;
pub mod path;
pub mod repo;
pub mod report;
pub mod text;
