use gavin::compliance::Registry;
use gavin::config::{Config, TaskStates};
use gavin::gitversion::GitVersionState;
use gavin::task::{SupportedTask, TaskValidState};

#[test]
fn test_task_state_deletion() {
    let mut db = Registry::new();

    // Add a test state
    let task = SupportedTask::Default("copyfiles".to_string());
    let state = TaskValidState::Default("1".to_string());
    db.add_valid_state(&task, &state);

    // Verify state was added
    let states = db.list_valid_states(&task);
    assert_eq!(states.len(), 1);
    assert_eq!(states[0], state);

    // Delete the state
    db.delete_valid_state(&task, &state);

    // Verify state was deleted
    let states = db.list_valid_states(&task);
    assert_eq!(states.len(), 0);
}

#[test]
fn test_task_state_formatting() {
    let mut db = Registry::new();

    let gv_task = SupportedTask::Gitversion;
    let gv_state = TaskValidState::Gitversion(GitVersionState::new("3", "3", "6.0.3"));
    db.add_valid_state(&gv_task, &gv_state);

    let default_task = SupportedTask::Default("copyfiles".to_string());
    let default_state = TaskValidState::Default("1".to_string());
    db.add_valid_state(&default_task, &default_state);

    let gv_states = db.list_valid_states(&gv_task);
    let default_states = db.list_valid_states(&default_task);

    assert_eq!(gv_states.len(), 1);
    assert_eq!(default_states.len(), 1);

    if let TaskValidState::Gitversion(gv) = &gv_states[0] {
        assert_eq!(gv.setup_version, "3");
        assert_eq!(gv.execute_version, "3");
        assert_eq!(gv.spec_version, "6.0.3");
    } else {
        panic!("Expected GitVersion state");
    }

    if let TaskValidState::Default(version) = &default_states[0] {
        assert_eq!(version, "1");
    } else {
        panic!("Expected Default state");
    }
}

#[test]
fn test_cli_task_state_operations() {
    let mut db = Registry::new();

    let task = "copyfiles";
    let state = "1";

    let task_obj = SupportedTask::Default(task.to_string());
    let state_obj = TaskValidState::Default(state.to_string());

    db.add_valid_state(&task_obj, &state_obj);

    let states = db.list_valid_states(&task_obj);
    assert_eq!(states.len(), 1);
    assert_eq!(states[0], state_obj);

    db.delete_valid_state(&task_obj, &state_obj);

    let states = db.list_valid_states(&task_obj);
    assert_eq!(states.len(), 0);
}

#[test]
fn test_task_state_operations() {
    let mut db = Registry::new();

    let powershell_task = SupportedTask::Default("powershell".to_string());
    let powershell_state = TaskValidState::Default("2".to_string());

    db.add_valid_state(&powershell_task, &powershell_state);

    let states = db.list_valid_states(&powershell_task);
    assert_eq!(states.len(), 1);
    assert_eq!(states[0], powershell_state);

    // Names are found whatever their case
    let powershell_upper = SupportedTask::Default("PowerShell".to_string());
    let states_upper = db.list_valid_states(&powershell_upper);
    assert_eq!(states_upper.len(), 1);
    assert_eq!(states_upper[0], powershell_state);

    db.delete_valid_state(&powershell_task, &powershell_state);
    let states_after_delete = db.list_valid_states(&powershell_task);
    assert_eq!(states_after_delete.len(), 0);
}

#[test]
fn test_config_merge() {
    let mut db = Registry::new();

    let mut config = Config { task_states: TaskStates::default() };
    config.task_states.gitversion.push(GitVersionState::new("3", "3", "6.0.3"));
    config
        .task_states
        .other_tasks
        .insert("powershell", vec!["2.0".to_string(), "3.0".to_string()]);

    db.merge_config(&config);

    let gitversion_states = db.list_valid_states(&SupportedTask::Gitversion);
    assert_eq!(gitversion_states.len(), 1);
    match &gitversion_states[0] {
        TaskValidState::Gitversion(gv) => {
            assert_eq!(gv.setup_version, "3");
            assert_eq!(gv.execute_version, "3");
            assert_eq!(gv.spec_version, "6.0.3");
        }
        _ => panic!("Expected GitVersion state"),
    }

    let powershell_states =
        db.list_valid_states(&SupportedTask::Default("powershell".to_string()));
    assert_eq!(powershell_states.len(), 2);
    assert!(powershell_states
        .iter()
        .any(|s| matches!(s, TaskValidState::Default(v) if v == "2.0")));
    assert!(powershell_states
        .iter()
        .any(|s| matches!(s, TaskValidState::Default(v) if v == "3.0")));
}

#[test]
fn test_case_insensitive_task_names() {
    let mut db = Registry::new();

    let task_lower = SupportedTask::Default("powershell".to_string());
    let state1 = TaskValidState::Default("1.0".to_string());
    let state2 = TaskValidState::Default("2.0".to_string());

    db.add_valid_state(&task_lower, &state1);
    db.add_valid_state(&task_lower, &state2);

    let lower_case = db.list_valid_states(&SupportedTask::Default("powershell".to_string()));
    let upper_case = db.list_valid_states(&SupportedTask::Default("POWERSHELL".to_string()));

    println!("Lower case states: {:?}", lower_case);
    println!("Upper case states: {:?}", upper_case);

    assert_eq!(lower_case.len(), 2);
    assert_eq!(upper_case.len(), 2);

    assert!(lower_case.contains(&state1));
    assert!(lower_case.contains(&state2));
    assert!(upper_case.contains(&state1));
    assert!(upper_case.contains(&state2));
}

#[test]
fn a_state_is_listed_once_and_deleted_under_the_name_in_lower_case() {
    let mut db = Registry::new();
    let task = SupportedTask::Default("npm".to_string());
    let state = TaskValidState::Default("1".to_string());
    db.add_valid_state(&task, &state);
    db.add_valid_state(&task, &state);
    db.add_valid_state(&task, &TaskValidState::Default("1.0".to_string()));
    db.add_valid_state(&SupportedTask::Default("NPM".to_string()), &state);
    let listed = db.list_valid_states(&task);
    assert_eq!(listed.len(), 2);
    assert_eq!(listed[0].to_text(), "@1");
    assert_eq!(listed[1].to_text(), "@1.0");

    // Deleting looks under the name in lower case, for exactly that text.
    db.delete_valid_state(&SupportedTask::Default("Npm".to_string()), &state);
    let left = db.states_for("npm");
    assert_eq!(left.len(), 2);
    assert_eq!(left[0].to_text(), "@1.0");
    assert_eq!(left[1].to_text(), "@1");
    assert_eq!(db.policies.len(), 2);
    assert_eq!(db.policies[1].task, "NPM");
}
