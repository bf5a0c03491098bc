//! Audits the task declarations of build pipelines against approved
//! version states.
//!
//! The library decides and computes; reading files, running commands and
//! talking to the store are left to the caller. Its parts, leaves first:
//!
//! - `text`: texts as sequences of characters;
//! - `version`: when two version texts are equivalent;
//! - `extract`: the task invocations in the text of a pipeline file;
//! - `git_manager`: the steps that bring a local mirror up to date;
//! - `compliance` and `issues`: invocations held against approved states;
//! - `orchestrate`: a batch of units of which a bounded number run at a
//!   time;
//! - `report` and `display`: the findings as text.

pub mod text;
pub mod table;
pub mod version;
pub mod gitversion;
pub mod task;
pub mod pattern;
pub mod extract;
pub mod config;
pub mod compliance;
pub mod issues;
pub mod git_manager;
pub mod orchestrate;
pub mod credentials;
pub mod utils;
pub mod cli;
pub mod usage;
pub mod report;
pub mod display;

pub use cli::Cli;
pub use config::Config;
pub use git_manager::GitManager;
pub use gitversion::{GitVersionImplementation, GitVersionState};
pub use issues::TaskIssues;
pub use task::{
    format_task_states, parse_task_name, SupportedTask, TaskImplementation, TaskValidState,
};
pub use version::VersionCompare;
