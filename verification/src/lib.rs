//! A linter for whitespace and line endings in the text files of a
//! directory tree.
//!
//! [`detect`] finds the issues of one text, [`ignore`] and [`tracking`]
//! decide which files are looked at, [`scan`] lays down the course of a
//! whole run, and [`report`] says what is written at its end. Nothing here
//! reads or writes a file: [`scan::Scan`] tells its driver what to do and
//! is told what came of it.

pub mod config;
pub mod detect;
pub mod ignore;
pub mod issue;
pub mod path;
pub mod report;
pub mod scan;
pub mod text;
pub mod tracking;

pub use config::ScanConfiguration;
pub use detect::lint_file;
pub use ignore::should_ignore;
pub use issue::{Issue, IssueType};
pub use scan::Scan;
pub use tracking::{git_tracked_files, is_git_repo};
