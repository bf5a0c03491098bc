use gavin::config::{Config, TaskStates};
use gavin::gitversion::GitVersionState;
use gavin::task::{format_task_states, parse_task_name, SupportedTask, TaskValidState};

#[test]
fn new_state_keeps_the_three_versions() {
    let state = GitVersionState::new("3", "4", "6.0.3");
    assert_eq!(state.setup_version, "3");
    assert_eq!(state.execute_version, "4");
    assert_eq!(state.spec_version, "6.0.3");
    assert_eq!(state.duplicate(), state);
}

#[test]
fn from_string_reads_a_state() {
    let state = GitVersionState::from_string("setup:3,execute:3,spec:6.0.3").unwrap();
    assert_eq!(state, GitVersionState::new("3", "3", "6.0.3"));
}

#[test]
fn from_string_takes_any_order_and_trims() {
    let state = GitVersionState::from_string(" spec : 6.0.3 , setup: 3,execute :4 ").unwrap();
    assert_eq!(state, GitVersionState::new("3", "4", "6.0.3"));
}

#[test]
fn from_string_wants_three_parts() {
    let expected = "Invalid format. Expected 'setup:VERSION,execute:VERSION,spec:VERSION'";
    assert_eq!(GitVersionState::from_string("").unwrap_err(), expected);
    assert_eq!(GitVersionState::from_string("setup:3,execute:3").unwrap_err(), expected);
    assert_eq!(
        GitVersionState::from_string("setup:3,execute:3,spec:6,more:1").unwrap_err(),
        expected
    );
}

#[test]
fn from_string_wants_one_colon_in_each_part() {
    assert_eq!(
        GitVersionState::from_string("setup3,execute:3,spec:6").unwrap_err(),
        "Invalid key-value pair"
    );
    assert_eq!(
        GitVersionState::from_string("setup:3,execute:3:4,spec:6").unwrap_err(),
        "Invalid key-value pair"
    );
    assert_eq!(
        GitVersionState::from_string(",,").unwrap_err(),
        "Invalid key-value pair"
    );
}

#[test]
fn from_string_names_an_unknown_key_as_written() {
    assert_eq!(
        GitVersionState::from_string("setup:3, run :3,spec:6").unwrap_err(),
        "Unknown key:  run "
    );
    assert_eq!(
        GitVersionState::from_string("Setup:3,execute:3,spec:6").unwrap_err(),
        "Unknown key: Setup"
    );
    // The first part that is wrong decides.
    assert_eq!(
        GitVersionState::from_string("a:1,b,c:3").unwrap_err(),
        "Unknown key: a"
    );
    assert_eq!(
        GitVersionState::from_string("setup:1,b,c:3").unwrap_err(),
        "Invalid key-value pair"
    );
}

#[test]
fn from_string_names_the_missing_version() {
    assert_eq!(
        GitVersionState::from_string("execute:3,execute:3,spec:6").unwrap_err(),
        "Missing setup version"
    );
    assert_eq!(
        GitVersionState::from_string("setup:3,setup:4,spec:6").unwrap_err(),
        "Missing execute version"
    );
    assert_eq!(
        GitVersionState::from_string("setup:3,execute:3,execute:4").unwrap_err(),
        "Missing spec version"
    );
    assert_eq!(
        GitVersionState::from_string("spec:1,spec:2,spec:3").unwrap_err(),
        "Missing setup version"
    );
}

#[test]
fn task_names_are_read() {
    assert_eq!(parse_task_name("gitversion"), SupportedTask::Gitversion);
    assert_eq!(parse_task_name("GitVersion"), SupportedTask::Gitversion);
    assert_eq!(parse_task_name("GITVERSION"), SupportedTask::Gitversion);
    assert_eq!(
        parse_task_name("PowerShell"),
        SupportedTask::Default("PowerShell".to_string())
    );
    assert_eq!(
        parse_task_name("gitversion/setup"),
        SupportedTask::Default("gitversion/setup".to_string())
    );
    assert_eq!(parse_task_name(""), SupportedTask::Default(String::new()));
}

#[test]
fn tasks_given_by_a_user_are_put_in_lower_case() {
    assert_eq!(SupportedTask::parse("gitversion"), SupportedTask::Gitversion);
    assert_eq!(SupportedTask::parse("GitVersion"), SupportedTask::Gitversion);
    assert_eq!(
        SupportedTask::parse("PowerShell"),
        SupportedTask::Default("powershell".to_string())
    );
    assert_eq!(
        SupportedTask::parse("ÄRGER"),
        SupportedTask::Default("ärger".to_string())
    );
    let parsed: SupportedTask = "CopyFiles".parse().unwrap();
    assert_eq!(parsed, SupportedTask::Default("copyfiles".to_string()));
    assert_eq!(
        SupportedTask::from_lowered("GitVersion"),
        SupportedTask::Default("GitVersion".to_string())
    );
    assert_eq!(SupportedTask::from_lowered("gitversion"), SupportedTask::Gitversion);
}

#[test]
fn tasks_are_shown_by_name() {
    assert_eq!(SupportedTask::Gitversion.to_text(), "gitversion");
    assert_eq!(SupportedTask::Default("copyfiles".to_string()).to_text(), "copyfiles");
    assert_eq!(SupportedTask::get_all_variants(), vec![SupportedTask::Gitversion]);
    let task = SupportedTask::Default("x".to_string());
    assert_eq!(task.duplicate(), task);
}

#[test]
fn states_are_shown_as_text() {
    let gv = TaskValidState::Gitversion(GitVersionState::new("3", "3", "6.0.3"));
    assert_eq!(gv.to_text(), "setup@3, execute@3, spec@6.0.3");
    let single = TaskValidState::Default("2".to_string());
    assert_eq!(single.to_text(), "@2");
    assert_eq!(single.duplicate().to_text(), "@2");
}

#[test]
fn task_states_are_listed_one_on_each_line() {
    let task = SupportedTask::Default("copyfiles".to_string());
    assert_eq!(format_task_states(&task, Vec::new()), "None");
    assert_eq!(
        format_task_states(&task, vec![TaskValidState::Default("1".to_string())]),
        "- @1"
    );
    assert_eq!(
        format_task_states(
            &SupportedTask::Gitversion,
            vec![
                TaskValidState::Gitversion(GitVersionState::new("3", "3", "6.0.3")),
                TaskValidState::Gitversion(GitVersionState::new("4", "4", "6.1.0")),
            ]
        ),
        "- setup@3, execute@3, spec@6.0.3\n- setup@4, execute@4, spec@6.1.0"
    );
}

#[test]
fn a_configuration_gives_the_states_of_a_task() {
    let mut states = TaskStates::default();
    assert!(states.gitversion.is_empty());
    assert_eq!(states.other_tasks.len(), 0);
    states.gitversion.push(GitVersionState::new("3", "3", "6.0.3"));
    states
        .other_tasks
        .insert("powershell", vec!["2.0".to_string(), "3.0".to_string()]);
    states.other_tasks.insert("copyfiles", vec!["1".to_string()]);
    let config = Config { task_states: states };

    let gv = config.get_valid_states(&SupportedTask::Gitversion);
    assert_eq!(gv.len(), 1);
    assert_eq!(gv[0].to_text(), "setup@3, execute@3, spec@6.0.3");

    let ps = config.get_valid_states(&SupportedTask::Default("powershell".to_string()));
    assert_eq!(ps.len(), 2);
    assert_eq!(ps[0].to_text(), "@2.0");
    assert_eq!(ps[1].to_text(), "@3.0");

    // Names in a configuration are looked up as written.
    let upper = config.get_valid_states(&SupportedTask::Default("PowerShell".to_string()));
    assert!(upper.is_empty());
    let none = config.get_valid_states(&SupportedTask::Default("unknown".to_string()));
    assert!(none.is_empty());
}
