//! The options of the command line, and which command they select.

use crate::task::SupportedTask;
use crate::utils::{sanitize_file_path, sanitized};
use vstd::prelude::*;

verus! {

/// The options that a user can give.
#[derive(Debug)]
pub struct Cli {
    /// Search for a string in pipeline files.
    pub search_string: Option<String>,
    /// List all repositories.
    pub list_repos: bool,
    /// List all repositories with their pipeline files.
    pub list_pipelines: bool,
    /// Add a repository.
    pub add_repo: Option<String>,
    /// Add several repositories, separated by commas.
    pub add_multiple_repos: Option<String>,
    /// When adding a repository, leave an existing mirror as it is.
    pub new: bool,
    /// Do not bring the mirrors up to date before reading them.
    pub no_update: bool,
    /// Delete a repository.
    pub delete_repo: Option<String>,
    /// Search for a task in the pipelines.
    pub search_task: Option<SupportedTask>,
    /// Add an approved state for a task.
    pub add_task_state: Option<SupportedTask>,
    /// Delete an approved state of a task.
    pub delete_task_state: Option<SupportedTask>,
    /// The state to add or delete.
    pub state_value: Option<String>,
    /// List the approved states of a task.
    pub list_task_states: Option<SupportedTask>,
    /// List the approved states of every task.
    pub list_all_task_states: bool,
    /// Show which tasks are used where.
    pub analyze_tasks: bool,
    /// Check every task against its approved states.
    pub check_tasks: bool,
    /// Write the result of the check as a report.
    pub output_markdown: bool,
    /// The file of the report.
    pub report_path: Option<String>,
    /// Show more.
    pub verbose: bool,
    /// The configuration file.
    pub config_path: Option<String>,
    /// Set the credentials, written as `username:token`.
    pub set_git_credentials: Option<String>,
}

/// What the options ask for.
#[derive(Debug, Clone, Copy, PartialEq, Eq, Structural)]
pub enum Command {
    /// Nothing was asked for: show the help.
    Help,
    /// A state was given without a state to add or delete.
    MisplacedStateValue,
    Search,
    SearchTask,
    ListRepos,
    ListPipelines,
    SetCredentials,
    AddRepo,
    AddMultipleRepos,
    DeleteRepo,
    AddTaskState,
    ListTaskStates,
    ListAllTaskStates,
    AnalyzeTasks,
    CheckTasks,
    CheckTasksWithReport,
    DeleteTaskState,
    /// A state is to be deleted, but none was given.
    DeleteTaskStateWithoutValue,
    /// The options do not go together.
    Invalid,
}

/// The file of the report where none is given.
pub open spec fn default_report_path() -> Seq<char> {
    "report.md"@
}

impl Cli {
    /// Whether any option asks for something.
    pub open spec fn asks_for_something(&self) -> bool {
        ||| self.search_string is Some
        ||| self.search_task is Some
        ||| self.list_repos
        ||| self.list_pipelines
        ||| self.add_repo is Some
        ||| self.add_multiple_repos is Some
        ||| self.delete_repo is Some
        ||| self.add_task_state is Some
        ||| self.delete_task_state is Some
        ||| self.list_task_states is Some
        ||| self.list_all_task_states
        ||| self.analyze_tasks
        ||| self.check_tasks
        ||| self.set_git_credentials is Some
    }

    /// Whether the command reads the approved states, so that the
    /// configuration has to be loaded first.
    pub open spec fn reads_states(&self) -> bool {
        ||| self.search_task is Some
        ||| self.delete_task_state is Some
        ||| self.add_task_state is Some
        ||| self.state_value is Some
        ||| self.list_task_states is Some
        ||| self.list_all_task_states
        ||| self.analyze_tasks
        ||| self.check_tasks
    }

    /// The command that the options select. Searching comes first, then
    /// listing, then the changes to what is stored, then the analyses.
    pub open spec fn selected(&self) -> Command {
        if !self.asks_for_something() {
            Command::Help
        } else if self.state_value is Some && self.add_task_state is None
            && self.delete_task_state is None {
            Command::MisplacedStateValue
        } else if self.search_string is Some {
            Command::Search
        } else if self.search_task is Some {
            Command::SearchTask
        } else if self.list_repos {
            Command::ListRepos
        } else if self.list_pipelines {
            Command::ListPipelines
        } else if self.set_git_credentials is Some {
            Command::SetCredentials
        } else if self.add_repo is Some {
            Command::AddRepo
        } else if self.add_multiple_repos is Some {
            Command::AddMultipleRepos
        } else if self.delete_repo is Some {
            Command::DeleteRepo
        } else if self.add_task_state is Some && self.state_value is Some {
            Command::AddTaskState
        } else if self.list_task_states is Some {
            Command::ListTaskStates
        } else if self.list_all_task_states {
            Command::ListAllTaskStates
        } else if self.analyze_tasks {
            Command::AnalyzeTasks
        } else if self.check_tasks {
            if self.output_markdown {
                Command::CheckTasksWithReport
            } else {
                Command::CheckTasks
            }
        } else if self.delete_task_state is Some {
            if self.state_value is Some {
                Command::DeleteTaskState
            } else {
                Command::DeleteTaskStateWithoutValue
            }
        } else {
            Command::Invalid
        }
    }

    /// Whether the configuration has to be loaded before the command
    /// runs.
    pub fn needs_config(&self) -> (r: bool)
        ensures
            r == self.reads_states(),
    {
        self.search_task.is_some() || self.delete_task_state.is_some()
            || self.add_task_state.is_some() || self.state_value.is_some()
            || self.list_task_states.is_some() || self.list_all_task_states || self.analyze_tasks
            || self.check_tasks
    }

    /// Whether any option asks for something.
    pub fn has_args(&self) -> (r: bool)
        ensures
            r == self.asks_for_something(),
    {
        self.search_string.is_some() || self.search_task.is_some() || self.list_repos
            || self.list_pipelines || self.add_repo.is_some() || self.add_multiple_repos.is_some()
            || self.delete_repo.is_some() || self.add_task_state.is_some()
            || self.delete_task_state.is_some() || self.list_task_states.is_some()
            || self.list_all_task_states || self.analyze_tasks || self.check_tasks
            || self.set_git_credentials.is_some()
    }

    /// The command that the options select.
    pub fn command(&self) -> (r: Command)
        ensures
            r == self.selected(),
    {
        if !self.has_args() {
            Command::Help
        } else if self.state_value.is_some() && self.add_task_state.is_none()
            && self.delete_task_state.is_none() {
            Command::MisplacedStateValue
        } else if self.search_string.is_some() {
            Command::Search
        } else if self.search_task.is_some() {
            Command::SearchTask
        } else if self.list_repos {
            Command::ListRepos
        } else if self.list_pipelines {
            Command::ListPipelines
        } else if self.set_git_credentials.is_some() {
            Command::SetCredentials
        } else if self.add_repo.is_some() {
            Command::AddRepo
        } else if self.add_multiple_repos.is_some() {
            Command::AddMultipleRepos
        } else if self.delete_repo.is_some() {
            Command::DeleteRepo
        } else if self.add_task_state.is_some() && self.state_value.is_some() {
            Command::AddTaskState
        } else if self.list_task_states.is_some() {
            Command::ListTaskStates
        } else if self.list_all_task_states {
            Command::ListAllTaskStates
        } else if self.analyze_tasks {
            Command::AnalyzeTasks
        } else if self.check_tasks {
            if self.output_markdown {
                Command::CheckTasksWithReport
            } else {
                Command::CheckTasks
            }
        } else if self.delete_task_state.is_some() {
            if self.state_value.is_some() {
                Command::DeleteTaskState
            } else {
                Command::DeleteTaskStateWithoutValue
            }
        } else {
            Command::Invalid
        }
    }

    /// The name of the file that the report is written to: the path given,
    /// or `report.md`, made safe as the name of one file.
    pub fn report_file(&self) -> (r: String)
        ensures
            r@ == sanitized(
                match self.report_path {
                    Some(p) => p@,
                    None => default_report_path(),
                },
            ),
    {
        match &self.report_path {
            Some(p) => sanitize_file_path(p.as_str()),
            None => sanitize_file_path("report.md"),
        }
    }
}

} // verus!
