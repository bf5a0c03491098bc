use gavin::compliance::{
    classify, classify_triple, classify_version, collect_triple, names_tool_step,
    state_approves_triple, state_approves_version, Compliance, ComplianceResult, Evidence,
    Registry,
};
use gavin::config::{Config, TaskStates};
use gavin::extract::{extract_invocations, TaskInvocation};
use gavin::gitversion::GitVersionState;
use gavin::issues::check_task_implementations;
use gavin::task::{SupportedTask, TaskImplementation, TaskValidState};

fn triple(setup: &str, execute: &str, spec: &str) -> TaskValidState {
    TaskValidState::Gitversion(GitVersionState::new(setup, execute, spec))
}

fn single(version: &str) -> TaskValidState {
    TaskValidState::Default(version.to_string())
}

fn some(s: &str) -> Option<String> {
    Some(s.to_string())
}

const SETUP_AND_EXECUTE_3: &str = "steps:\n- task: gitversion/setup@3\n  displayName: Install\n  \
    inputs:\n    versionSpec: '6.0.3'\n- script: build\n- task: gitversion/execute@3\n";

const SETUP_3_EXECUTE_4: &str = "steps:\n- task: gitversion/setup@3\n  displayName: Install\n  \
    inputs:\n    versionSpec: '6.0.3'\n- script: build\n- task: gitversion/execute@4\n";

fn tool_result(status: Compliance, execute: &str) -> ComplianceResult {
    ComplianceResult {
        repo_name: "repo".to_string(),
        task_name: "gitversion".to_string(),
        file_path: "azure-pipelines.yml".to_string(),
        evidence: Evidence::Triple(some("3"), some(execute), some("6.0.3")),
        status,
    }
}

#[test]
fn an_approved_triple_is_compliant() {
    let found = extract_invocations("repo", "azure-pipelines.yml", SETUP_AND_EXECUTE_3).unwrap();
    let mut registry = Registry::new();
    registry.add("gitversion", triple("3", "3", "6.0.3"));
    assert_eq!(
        classify(&found, &registry),
        vec![tool_result(Compliance::Compliant, "3")]
    );
}

#[test]
fn a_triple_that_is_not_configured_is_not_compliant() {
    let found = extract_invocations("repo", "azure-pipelines.yml", SETUP_3_EXECUTE_4).unwrap();
    let mut registry = Registry::new();
    registry.add("gitversion", triple("3", "3", "6.0.3"));
    assert_eq!(
        classify(&found, &registry),
        vec![tool_result(Compliance::NonCompliant, "4")]
    );
    // The same triple, once approved, is compliant.
    registry.add("GitVersion", triple("3", "4", "6.0.3"));
    assert_eq!(
        classify(&found, &registry),
        vec![tool_result(Compliance::Compliant, "4")]
    );
}

#[test]
fn a_task_without_states_has_no_policy() {
    let found = extract_invocations("repo", "p.yml", "- task: copyfiles@1\n").unwrap();
    let expected = |status| ComplianceResult {
        repo_name: "repo".to_string(),
        task_name: "copyfiles".to_string(),
        file_path: "p.yml".to_string(),
        evidence: Evidence::Version("1".to_string()),
        status,
    };
    let mut registry = Registry::new();
    assert_eq!(
        classify(&found, &registry),
        vec![expected(Compliance::NoPolicyDefined)]
    );
    registry.add("powershell", single("1"));
    assert_eq!(
        classify(&found, &registry),
        vec![expected(Compliance::NoPolicyDefined)]
    );
    registry.add("copyfiles", single("1"));
    assert_eq!(classify(&found, &registry), vec![expected(Compliance::Compliant)]);
}

#[test]
fn a_version_that_no_state_approves_is_not_compliant() {
    let found = extract_invocations("repo", "p.yml", "- task: copyfiles@2\n").unwrap();
    let mut registry = Registry::new();
    registry.add("copyfiles", single("1"));
    let got = classify(&found, &registry);
    assert_eq!(got.len(), 1);
    assert_eq!(got[0].status, Compliance::NonCompliant);
    registry.add("CopyFiles", single("2.0.0"));
    assert_eq!(classify(&found, &registry)[0].status, Compliance::Compliant);
}

#[test]
fn versions_are_classified_by_equivalence() {
    let states = vec![single("1"), single("2.0")];
    assert_eq!(classify_version(&states, "1"), Compliance::Compliant);
    assert_eq!(classify_version(&states, "1.0.0"), Compliance::Compliant);
    assert_eq!(classify_version(&states, "2"), Compliance::Compliant);
    assert_eq!(classify_version(&states, "3"), Compliance::NonCompliant);
    assert_eq!(classify_version(&Vec::new(), "1"), Compliance::NoPolicyDefined);
    // A triple approves no single version, but it is a state.
    let triples = vec![triple("1", "1", "1")];
    assert_eq!(classify_version(&triples, "1"), Compliance::NonCompliant);
    assert!(state_approves_version(&single("1"), "1.0"));
    assert!(!state_approves_version(&single("1"), "1.1"));
    assert!(!state_approves_version(&triple("1", "1", "1"), "1"));
}

#[test]
fn a_triple_with_a_member_missing_is_never_compliant() {
    let states = vec![triple("3", "3", "6.0.3"), triple("?", "?", "?")];
    let ok = classify_triple(&states, &some("3"), &some("3.0"), &some("6.0.3"));
    assert_eq!(ok, Compliance::Compliant);
    for (a, b, c) in [
        (None, some("3"), some("6.0.3")),
        (some("3"), None, some("6.0.3")),
        (some("3"), some("3"), None),
        (None, None, None),
    ] {
        assert_eq!(classify_triple(&states, &a, &b, &c), Compliance::NonCompliant);
        assert!(!state_approves_triple(&states[1], &a, &b, &c));
    }
    assert_eq!(
        classify_triple(&Vec::new(), &some("3"), &some("3"), &some("6.0.3")),
        Compliance::NonCompliant
    );
    assert!(!state_approves_triple(&single("3"), &some("3"), &some("3"), &some("3")));
    assert!(state_approves_triple(&states[1], &some("?"), &some("?"), &some("?")));
}

fn invocation(repo: &str, task: &str, version: &str, file: &str, spec: Option<&str>) -> TaskInvocation {
    TaskInvocation {
        repo_name: repo.to_string(),
        task_name: task.to_string(),
        version: version.to_string(),
        file_path: file.to_string(),
        spec: spec.map(|s| s.to_string()),
    }
}

#[test]
fn the_triple_of_a_repository_is_collected_over_its_files() {
    let all = vec![
        invocation("a", "gitversion/setup", "2", "a/one.yml", Some("5.x")),
        invocation("b", "gitversion/setup", "9", "b/one.yml", Some("9.x")),
        invocation("a", "gitversion/execute", "2", "a/one.yml", None),
        invocation("a", "gitversion/setup", "3", "a/two.yml", None),
        invocation("a", "copyfiles", "7", "a/two.yml", None),
        invocation("a", "gitversion/execute", "4", "a/three.yml", None),
    ];
    let a = collect_triple(&all, "a");
    assert_eq!(a.setup, some("3"));
    assert_eq!(a.execute, some("4"));
    assert_eq!(a.spec, some("5.x"));
    assert_eq!(a.file, some("a/two.yml"));
    let b = collect_triple(&all, "b");
    assert_eq!((b.setup, b.execute, b.spec), (some("9"), None, some("9.x")));
    let c = collect_triple(&all, "c");
    assert_eq!((c.setup, c.execute, c.spec, c.file), (None, None, None, None));
    assert!(names_tool_step("gitversion/setup"));
    assert!(names_tool_step("gitversion/execute"));
    assert!(!names_tool_step("gitversion"));
    assert!(!names_tool_step("GitVersion/setup"));
}

#[test]
fn single_tasks_come_first_then_one_verdict_for_each_repository() {
    let all = vec![
        invocation("b", "gitversion/execute", "3", "b/p.yml", None),
        invocation("a", "copyfiles", "1", "a/p.yml", None),
        invocation("a", "gitversion/setup", "3", "a/p.yml", Some("6.0.3")),
        invocation("b", "powershell", "2", "b/p.yml", None),
        invocation("a", "gitversion/execute", "3", "a/p.yml", None),
    ];
    let mut registry = Registry::new();
    registry.add("gitversion", triple("3", "3", "6.0.3"));
    registry.add("copyfiles", single("2"));
    let got = classify(&all, &registry);
    let shown: Vec<(String, String, Compliance)> = got
        .iter()
        .map(|r| (r.repo_name.clone(), r.task_name.clone(), r.status))
        .collect();
    assert_eq!(
        shown,
        vec![
            ("a".to_string(), "copyfiles".to_string(), Compliance::NonCompliant),
            ("b".to_string(), "powershell".to_string(), Compliance::NoPolicyDefined),
            ("b".to_string(), "gitversion".to_string(), Compliance::NonCompliant),
            ("a".to_string(), "gitversion".to_string(), Compliance::Compliant),
        ]
    );
    assert_eq!(got[2].evidence, Evidence::Triple(None, some("3"), None));
    assert_eq!(got[2].file_path, "");
    assert_eq!(got[3].file_path, "a/p.yml");
    assert_eq!(classify(&Vec::new(), &registry), Vec::new());
}

#[test]
fn the_registry_gives_the_states_of_a_task_in_any_case() {
    let mut registry = Registry::new();
    registry.add("powershell", single("1.0"));
    registry.add("copyfiles", single("1"));
    registry.add("PowerShell", single("2.0"));
    let lower = registry.states_for("powershell");
    let upper = registry.states_for("POWERSHELL");
    assert_eq!(lower.len(), 2);
    assert_eq!(upper.len(), 2);
    assert_eq!(lower[0].to_text(), "@1.0");
    assert_eq!(lower[1].to_text(), "@2.0");
    assert_eq!(upper[1].to_text(), "@2.0");
    assert!(registry.states_for("unknown").is_empty());
}

#[test]
fn a_configuration_replaces_what_the_registry_had() {
    let mut registry = Registry::new();
    registry.add("gitversion", triple("1", "1", "1"));
    registry.add("PowerShell", single("1.0"));
    registry.add("copyfiles", single("1"));
    registry.add("npm", single("0"));

    let mut states = TaskStates::default();
    states.gitversion.push(GitVersionState::new("3", "3", "6.0.3"));
    states
        .other_tasks
        .insert("powershell", vec!["2.0".to_string(), "3.0".to_string()]);
    states.other_tasks.insert("npm", Vec::new());
    registry.merge_config(&Config { task_states: states });

    let gv = registry.states_for("gitversion");
    assert_eq!(gv.len(), 1);
    assert_eq!(gv[0].to_text(), "setup@3, execute@3, spec@6.0.3");
    let ps = registry.states_for("powershell");
    assert_eq!(ps.len(), 2);
    assert_eq!(ps[0].to_text(), "@2.0");
    assert_eq!(ps[1].to_text(), "@3.0");
    // What the configuration does not list, or lists without states, stays.
    assert_eq!(registry.states_for("copyfiles").len(), 1);
    assert_eq!(registry.states_for("npm").len(), 1);

    // An empty configuration changes nothing.
    registry.merge_config(&Config { task_states: TaskStates::default() });
    assert_eq!(registry.states_for("gitversion").len(), 1);
    assert_eq!(registry.states_for("powershell").len(), 2);
}

#[test]
fn replacing_and_removing_states() {
    let mut registry = Registry::new();
    registry.add("a", single("1"));
    registry.add("A", single("2"));
    registry.add("b", single("3"));
    registry.replace("a", Vec::new());
    assert_eq!(registry.states_for("a").len(), 2);
    registry.replace("a", vec![single("9")]);
    assert_eq!(registry.states_for("A").len(), 1);
    assert_eq!(registry.states_for("a")[0].to_text(), "@9");
    assert_eq!(registry.policies.len(), 2);
    assert_eq!(registry.policies[0].task, "b");
    registry.remove_task("B");
    assert_eq!(registry.policies.len(), 1);
    registry.remove_task("zzz");
    assert_eq!(registry.policies.len(), 1);
}

#[test]
fn the_registry_lists_its_tasks() {
    let mut registry = Registry::new();
    assert_eq!(registry.all_tasks(), vec![SupportedTask::Gitversion]);
    registry.add("powershell", single("1"));
    registry.add("GitVersion", triple("1", "1", "1"));
    registry.add("copyfiles", single("1"));
    registry.add("powershell", single("2"));
    registry.add("PowerShell", single("3"));
    assert_eq!(
        registry.all_tasks(),
        vec![
            SupportedTask::Gitversion,
            SupportedTask::Default("powershell".to_string()),
            SupportedTask::Default("copyfiles".to_string()),
            SupportedTask::Default("PowerShell".to_string()),
        ]
    );
}

fn implementation(repo: &str, version: &str, file: &str) -> TaskImplementation {
    TaskImplementation {
        repo_name: repo.to_string(),
        version: version.to_string(),
        file_path: file.to_string(),
    }
}

#[test]
fn an_audit_records_occurrences_missing_states_and_invalid_ones() {
    let all = vec![
        invocation("a", "copyfiles", "1", "a/p.yml", None),
        invocation("a", "powershell", "2", "a/p.yml", None),
        invocation("b", "copyfiles", "2", "b/p.yml", None),
        invocation("b", "copyfiles", "3", "b/q.yml", None),
        invocation("b", "powershell", "2", "b/p.yml", None),
    ];
    let mut registry = Registry::new();
    registry.add("copyfiles", single("1"));
    let issues = check_task_implementations(&all, &registry);

    assert_eq!(issues.missing_states, vec!["powershell".to_string()]);

    assert_eq!(issues.all_implementations.len(), 2);
    assert_eq!(
        issues.all_implementations.get("copyfiles"),
        Some(&vec![
            implementation("a", "1", "a/p.yml"),
            implementation("b", "2", "b/p.yml"),
            implementation("b", "3", "b/q.yml"),
        ])
    );
    assert_eq!(
        issues.all_implementations.get("powershell"),
        Some(&vec![implementation("a", "2", "a/p.yml"), implementation("b", "2", "b/p.yml")])
    );

    // A task without states is missing, and nothing of it is invalid.
    assert_eq!(issues.invalid_states.len(), 1);
    let copy = issues.invalid_states.get("copyfiles").unwrap();
    assert_eq!(copy.len(), 1);
    assert_eq!(
        copy.get("b"),
        Some(&vec![implementation("b", "2", "b/p.yml"), implementation("b", "3", "b/q.yml")])
    );
    assert!(issues.invalid_states.get("powershell").is_none());
}

#[test]
fn a_task_without_policy_is_missing_and_nothing_else() {
    let found = extract_invocations("r", "azure-pipelines.yml", "- task: copyfiles@1").unwrap();
    let mut registry = Registry::new();
    let issues = check_task_implementations(&found, &registry);
    assert_eq!(issues.missing_states, vec!["copyfiles".to_string()]);
    assert_eq!(issues.invalid_states.len(), 0);
    assert!(issues.invalid_states.get("copyfiles").is_none());
    assert_eq!(
        issues.all_implementations.get("copyfiles"),
        Some(&vec![implementation("r", "1", "azure-pipelines.yml")])
    );
    assert_eq!(classify(&found, &registry)[0].status, Compliance::NoPolicyDefined);

    // With the version approved nothing is wrong at all.
    registry.add("copyfiles", single("1"));
    let issues = check_task_implementations(&found, &registry);
    assert!(issues.missing_states.is_empty());
    assert_eq!(issues.invalid_states.len(), 0);

    // With another version approved the occurrence is invalid, not missing.
    let mut other = Registry::new();
    other.add("copyfiles", single("2"));
    let issues = check_task_implementations(&found, &other);
    assert!(issues.missing_states.is_empty());
    assert_eq!(
        issues.invalid_states.get("copyfiles").unwrap().get("r"),
        Some(&vec![implementation("r", "1", "azure-pipelines.yml")])
    );
}

#[test]
fn a_triple_that_is_not_configured_is_recorded_as_invalid() {
    let text = "- task: gitversion/setup@3\n  inputs:\n    versionSpec: '6.0.3'\n\
- task: gitversion/execute@4\n";
    let found = extract_invocations("r", "azure-pipelines.yml", text).unwrap();
    let mut registry = Registry::new();
    registry.add("gitversion", triple("3", "3", "6.0.3"));
    let issues = check_task_implementations(&found, &registry);
    for step in ["gitversion/setup", "gitversion/execute"] {
        assert_eq!(
            issues.invalid_states.get(step).unwrap().get("r"),
            Some(&vec![implementation("r", "3", "azure-pipelines.yml")])
        );
    }
    assert!(issues.missing_states.is_empty());
}

#[test]
fn an_audit_records_a_rejected_triple_under_each_step_that_occurs() {
    let all = vec![
        invocation("good", "gitversion/setup", "3", "good/p.yml", Some("6.0.3")),
        invocation("good", "gitversion/execute", "3", "good/p.yml", None),
        invocation("bad", "gitversion/setup", "3", "bad/p.yml", Some("6.0.3")),
        invocation("bad", "gitversion/execute", "4", "bad/p.yml", None),
        invocation("half", "gitversion/execute", "3", "half/p.yml", None),
    ];
    let mut registry = Registry::new();
    registry.add("gitversion", triple("3", "3", "6.0.3"));
    let issues = check_task_implementations(&all, &registry);

    assert!(issues.missing_states.is_empty());
    assert_eq!(issues.all_implementations.len(), 2);
    assert_eq!(issues.invalid_states.len(), 2);
    for step in ["gitversion/setup", "gitversion/execute"] {
        let by_repo = issues.invalid_states.get(step).unwrap();
        assert_eq!(by_repo.len(), 2);
        assert_eq!(by_repo.get("good"), None);
        assert_eq!(by_repo.get("bad"), Some(&vec![implementation("bad", "3", "bad/p.yml")]));
        assert_eq!(by_repo.get("half"), Some(&vec![implementation("half", "?", "")]));
    }

    // Without a setup step anywhere, nothing is recorded under it.
    let only_execute = vec![invocation("half", "gitversion/execute", "3", "half/p.yml", None)];
    let issues = check_task_implementations(&only_execute, &registry);
    assert_eq!(issues.invalid_states.len(), 1);
    assert!(issues.invalid_states.get("gitversion/setup").is_none());
    assert!(issues.invalid_states.get("gitversion/execute").is_some());

    let nothing = check_task_implementations(&Vec::new(), &registry);
    assert_eq!(nothing.all_implementations.len(), 0);
    assert_eq!(nothing.invalid_states.len(), 0);
}
