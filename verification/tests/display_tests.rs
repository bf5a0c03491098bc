use gavin::compliance::{Compliance, Registry};
use gavin::display::{
    classify_file, file_status_line, push_padded, shows_path, triple_status_line, uses_alike,
    version_status_line,
};
use gavin::extract::TaskInvocation;
use gavin::git_manager::{choose_mode, get_local_path, SyncMode};
use gavin::gitversion::{GitVersionImplementation, GitVersionState};
use gavin::issues::check_task_implementations;
use gavin::task::TaskValidState;
use gavin::text::{chars_of, string_of};

fn some(s: &str) -> Option<String> {
    Some(s.to_string())
}

fn file(setup: Option<(&str, Option<&str>)>, execute: Option<&str>) -> GitVersionImplementation {
    GitVersionImplementation {
        setup: setup.map(|(v, s)| (v.to_string(), s.map(|x| x.to_string()))),
        execute: execute.map(|v| v.to_string()),
        file_path: "ci/pipeline.yml".to_string(),
    }
}

#[test]
fn a_name_is_padded_to_its_column() {
    let pad = |s: &str, width: usize| {
        let mut out = chars_of("[");
        push_padded(&mut out, s, width);
        out.push(']');
        string_of(&out)
    };
    assert_eq!(pad("ab", 5), "[ab   ]");
    assert_eq!(pad("abcde", 5), "[abcde]");
    assert_eq!(pad("abcdefg", 5), "[abcdefg]");
    assert_eq!(pad("", 0), "[]");
    assert_eq!(pad("äö", 4), format!("[{:<4}]", "äö"));
}

#[test]
fn the_line_of_a_triple_shows_what_was_found() {
    assert_eq!(
        triple_status_line(true, "repo", &some("3"), &some("3"), &some("6.0.3"), &some("a/p.yml")),
        format!("✓ {:<25} 3 | 3 | 6.0.3 (a/p.yml)", "repo")
    );
    assert_eq!(
        triple_status_line(false, "a-repository-with-a-long-name", &None, &some("3"), &None, &None),
        "✗ a-repository-with-a-long-name ? | 3 | ?"
    );
}

#[test]
fn the_line_of_a_file_labels_the_versions() {
    let found = file(Some(("3", Some("6.0.3"))), Some("3"));
    assert_eq!(
        file_status_line(true, "repo", &found, &None),
        format!("✓ {:<25} setup@3 | execute@3 | spec@6.0.3", "repo")
    );
    let partial = file(Some(("3", None)), None);
    assert_eq!(
        file_status_line(false, "repo", &partial, &some("ci/pipeline.yml")),
        format!("✗ {:<25} setup@3 | execute@none | spec@none (ci/pipeline.yml)", "repo")
    );
    let empty = file(None, Some("2"));
    assert_eq!(
        file_status_line(false, "r", &empty, &None),
        format!("✗ {:<25} setup@none | execute@2 | spec@none", "r")
    );
}

#[test]
fn the_line_of_a_version_shows_the_place() {
    assert_eq!(
        version_status_line(true, "repo", "2", "ci/pipeline.yml"),
        format!("✓ {:<25} @2 (ci/pipeline.yml)", "repo")
    );
    assert_eq!(
        version_status_line(false, "", "", ""),
        format!("✗ {:<25} @ ()", "")
    );
}

#[test]
fn a_file_is_held_against_the_approved_triples() {
    let states = vec![
        TaskValidState::Gitversion(GitVersionState::new("3", "3", "6.0.3")),
        TaskValidState::Default("3".to_string()),
    ];
    assert_eq!(
        classify_file(&file(Some(("3", Some("6.0.3"))), Some("3.0")), &states),
        Compliance::Compliant
    );
    assert_eq!(
        classify_file(&file(Some(("3", Some("6.0.3"))), Some("4")), &states),
        Compliance::NonCompliant
    );
    assert_eq!(
        classify_file(&file(Some(("3", None)), Some("3")), &states),
        Compliance::NonCompliant
    );
    assert_eq!(
        classify_file(&file(None, Some("3")), &states),
        Compliance::NonCompliant
    );
    assert_eq!(
        classify_file(&file(Some(("3", Some("6.0.3"))), None), &states),
        Compliance::NonCompliant
    );
}

#[test]
fn the_path_is_shown_where_files_use_the_tool_alike() {
    let a = file(Some(("3", Some("6"))), Some("3"));
    let b = file(Some(("3", Some("6"))), Some("3"));
    let c = file(Some(("3", None)), Some("3"));
    let d = file(None, Some("3"));
    assert!(uses_alike(&a, &b));
    assert!(!uses_alike(&a, &c));
    assert!(!uses_alike(&c, &d));
    assert!(uses_alike(&d, &file(None, Some("3"))));
    assert!(!uses_alike(&d, &file(None, None)));
    let all = vec![a, b, c, d];
    assert!(shows_path(&all, &all[0]));
    assert!(shows_path(&all, &all[1]));
    assert!(!shows_path(&all, &all[2]));
    assert!(!shows_path(&all, &all[3]));
    assert!(!shows_path(&Vec::new(), &all[0]));
}

#[test]
fn the_mode_follows_the_options() {
    assert_eq!(choose_mode(false, false), SyncMode::Converge);
    assert_eq!(choose_mode(false, true), SyncMode::SkipIfPresent);
    assert_eq!(choose_mode(true, false), SyncMode::CloneOnly);
    assert_eq!(choose_mode(true, true), SyncMode::CloneOnly);
    assert_eq!(get_local_path("/work", "https://host/org/repo.git"), "/work/temp_repos/repo");
    assert_eq!(get_local_path("/w", "https://h/org/repo.git"), "/w/temp_repos/repo");
    assert_eq!(get_local_path("/w", "https://h/org/repo"), "/w/temp_repos/repo");
    assert_eq!(get_local_path("", "repo"), "/temp_repos/repo");
}

#[test]
fn findings_keep_the_order_in_which_tasks_first_occur() {
    let inv = |repo: &str, task: &str, version: &str| TaskInvocation {
        repo_name: repo.to_string(),
        task_name: task.to_string(),
        version: version.to_string(),
        file_path: format!("{}/p.yml", repo),
        spec: None,
    };
    let all = vec![
        inv("a", "zip", "1"),
        inv("a", "gitversion/execute", "3"),
        inv("b", "copy", "1"),
        inv("b", "zip", "2"),
        inv("c", "alpha", "1"),
        inv("c", "copy", "2"),
    ];
    let mut registry = Registry::new();
    registry.add("copy", TaskValidState::Default("1".to_string()));
    registry.add("zip", TaskValidState::Default("9".to_string()));
    let issues = check_task_implementations(&all, &registry);
    let names: Vec<&str> =
        issues.all_implementations.entries.iter().map(|(k, _)| k.as_str()).collect();
    assert_eq!(names, vec!["zip", "gitversion/execute", "copy", "alpha"]);
    assert_eq!(issues.missing_states, vec!["alpha".to_string()]);
    let invalid: Vec<(&str, Vec<&str>)> = issues
        .invalid_states
        .entries
        .iter()
        .map(|(task, repos)| {
            (task.as_str(), repos.entries.iter().map(|(repo, _)| repo.as_str()).collect())
        })
        .collect();
    assert_eq!(
        invalid,
        vec![
            ("zip", vec!["a", "b"]),
            ("copy", vec!["c"]),
            ("gitversion/execute", vec!["a"]),
        ]
    );
}
