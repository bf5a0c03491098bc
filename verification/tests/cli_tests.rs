use gavin::cli::{Cli, Command};
use gavin::task::SupportedTask;

fn nothing() -> Cli {
    Cli {
        search_string: None,
        list_repos: false,
        list_pipelines: false,
        add_repo: None,
        add_multiple_repos: None,
        new: false,
        no_update: false,
        delete_repo: None,
        search_task: None,
        add_task_state: None,
        delete_task_state: None,
        state_value: None,
        list_task_states: None,
        list_all_task_states: false,
        analyze_tasks: false,
        check_tasks: false,
        output_markdown: false,
        report_path: None,
        verbose: false,
        config_path: None,
        set_git_credentials: None,
    }
}

fn text(s: &str) -> Option<String> {
    Some(s.to_string())
}

fn task(s: &str) -> Option<SupportedTask> {
    Some(SupportedTask::Default(s.to_string()))
}

#[test]
fn without_options_the_help_is_shown() {
    let cli = nothing();
    assert!(!cli.has_args());
    assert!(!cli.needs_config());
    assert_eq!(cli.command(), Command::Help);
    // Options that only say how do not ask for anything.
    let mut cli = nothing();
    cli.verbose = true;
    cli.new = true;
    cli.no_update = true;
    cli.output_markdown = true;
    cli.report_path = text("r.md");
    cli.config_path = text("c.yml");
    assert_eq!(cli.command(), Command::Help);
}

#[test]
fn a_state_value_alone_is_misplaced() {
    let mut cli = nothing();
    cli.state_value = text("1");
    assert!(cli.needs_config());
    assert_eq!(cli.command(), Command::Help);
    cli.list_repos = true;
    assert_eq!(cli.command(), Command::MisplacedStateValue);
    cli.add_task_state = task("copyfiles");
    assert_eq!(cli.command(), Command::ListRepos);
}

#[test]
fn each_option_selects_its_command() {
    let mut cli = nothing();
    cli.search_string = text("needle");
    assert_eq!(cli.command(), Command::Search);
    assert!(!cli.needs_config());

    let mut cli = nothing();
    cli.search_task = Some(SupportedTask::Gitversion);
    assert_eq!(cli.command(), Command::SearchTask);
    assert!(cli.needs_config());

    let mut cli = nothing();
    cli.list_repos = true;
    assert_eq!(cli.command(), Command::ListRepos);

    let mut cli = nothing();
    cli.list_pipelines = true;
    assert_eq!(cli.command(), Command::ListPipelines);

    let mut cli = nothing();
    cli.set_git_credentials = text("u:t");
    assert_eq!(cli.command(), Command::SetCredentials);

    let mut cli = nothing();
    cli.add_repo = text("https://h/r");
    assert_eq!(cli.command(), Command::AddRepo);

    let mut cli = nothing();
    cli.add_multiple_repos = text("a,b");
    assert_eq!(cli.command(), Command::AddMultipleRepos);

    let mut cli = nothing();
    cli.delete_repo = text("https://h/r");
    assert_eq!(cli.command(), Command::DeleteRepo);

    let mut cli = nothing();
    cli.list_task_states = task("copyfiles");
    assert_eq!(cli.command(), Command::ListTaskStates);

    let mut cli = nothing();
    cli.list_all_task_states = true;
    assert_eq!(cli.command(), Command::ListAllTaskStates);

    let mut cli = nothing();
    cli.analyze_tasks = true;
    assert_eq!(cli.command(), Command::AnalyzeTasks);
    assert!(cli.needs_config());
}

#[test]
fn checks_may_write_a_report() {
    let mut cli = nothing();
    cli.check_tasks = true;
    assert_eq!(cli.command(), Command::CheckTasks);
    cli.output_markdown = true;
    assert_eq!(cli.command(), Command::CheckTasksWithReport);
    assert_eq!(cli.report_file(), "report.md");
    cli.report_path = text("out/reports\\today.md");
    assert_eq!(cli.report_file(), "out_reports_today.md");
}

#[test]
fn states_are_added_and_deleted_with_a_value() {
    let mut cli = nothing();
    cli.add_task_state = task("copyfiles");
    assert_eq!(cli.command(), Command::Invalid);
    cli.state_value = text("1");
    assert_eq!(cli.command(), Command::AddTaskState);

    let mut cli = nothing();
    cli.delete_task_state = task("copyfiles");
    assert_eq!(cli.command(), Command::DeleteTaskStateWithoutValue);
    cli.state_value = text("1");
    assert_eq!(cli.command(), Command::DeleteTaskState);

    // Without a value, adding gives way to what comes after it.
    let mut cli = nothing();
    cli.add_task_state = task("copyfiles");
    cli.check_tasks = true;
    assert_eq!(cli.command(), Command::CheckTasks);
}

#[test]
fn earlier_commands_win() {
    let mut cli = nothing();
    cli.check_tasks = true;
    cli.analyze_tasks = true;
    cli.delete_repo = text("x");
    cli.add_repo = text("y");
    assert_eq!(cli.command(), Command::AddRepo);
    cli.list_pipelines = true;
    assert_eq!(cli.command(), Command::ListPipelines);
    cli.search_task = task("x");
    assert_eq!(cli.command(), Command::SearchTask);
    cli.search_string = text("q");
    assert_eq!(cli.command(), Command::Search);
}
