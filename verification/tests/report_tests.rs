use gavin::compliance::Registry;
use gavin::extract::TaskInvocation;
use gavin::gitversion::GitVersionState;
use gavin::issues::{check_task_implementations, TaskIssues};
use gavin::git_manager::{error_text, SyncError};
use gavin::orchestrate::PerRepoOutcome;
use gavin::report::{
    generate_header, generate_implementation_details, generate_issues_section,
    generate_markdown_report, generate_not_processed_section, generate_summary_section,
    generate_task_usage_section, generate_valid_states_section, not_processed, write_header,
    NotProcessed,
};
use gavin::task::TaskValidState;
use gavin::usage::{
    distinct_names, sort_names, sorted_distinct, usage_files, usage_records, usage_repos,
    usage_tasks, usage_versions, UsageRecord,
};

fn strings(items: &[&str]) -> Vec<String> {
    items.iter().map(|s| s.to_string()).collect()
}

fn invocation(repo: &str, task: &str, version: &str, file: &str) -> TaskInvocation {
    TaskInvocation {
        repo_name: repo.to_string(),
        task_name: task.to_string(),
        version: version.to_string(),
        file_path: file.to_string(),
        spec: None,
    }
}

fn sample_registry() -> Registry {
    let mut registry = Registry::new();
    registry.add("copyfiles", TaskValidState::Default("1".to_string()));
    registry
}

fn sample_issues() -> TaskIssues {
    let all = vec![
        invocation("a", "copyfiles", "1", "a/p.yml"),
        invocation("b", "copyfiles", "2", "b/p.yml"),
        invocation("b", "copyfiles", "2", "b/q.yml"),
        invocation("c", "copyfiles", "10", "c/p.yml"),
        invocation("a", "powershell", "2", "a/p.yml"),
    ];
    check_task_implementations(&all, &sample_registry())
}

const SUMMARY: &str = "## Summary\n\n- Total implementations analyzed: **5**\n\
- Tasks with missing states: **1**\n- Invalid state implementations: **2**\n\n";

const ISSUES: &str = "## Issues Found\n\n### Tasks Missing State Definitions\n\n- powershell\n\n\
### Invalid State Implementations\n\n#### copyfiles\n\n- b\n  - 2: b/p.yml\n  - 2: b/q.yml\n\
- c\n  - 10: c/p.yml\n\n";

const DETAILS: &str = "## Implementation Details\n\n### copyfiles\n\n#### Version 1\n\n\
- a: a/p.yml\n\n#### Version 10\n\n- c: c/p.yml\n\n#### Version 2\n\n- b (2 occurrences)\n  \
- b/p.yml\n  - b/q.yml\n\n### powershell\n\n#### Version 2\n\n- a: a/p.yml\n\n";

const STATES: &str = "## Valid Task States\n\n### gitversion\n\nNone\n\n### copyfiles\n\n- @1\n\n";

#[test]
fn the_header_names_the_moment() {
    let mut md = String::from("before\n");
    write_header(&mut md, "2024-05-06 07:08:09");
    assert_eq!(
        md,
        "before\n# Pipeline Task Analysis Report\n\nGenerated on: 2024-05-06 07:08:09\n\n"
    );
    let mut now = String::new();
    generate_header(&mut now);
    let start = "# Pipeline Task Analysis Report\n\nGenerated on: ";
    assert!(now.starts_with(start));
    assert!(now.ends_with("\n\n"));
    let moment = &now[start.len()..now.len() - 2];
    assert_eq!(moment.len(), 19);
    assert_eq!(&moment[4..5], "-");
    assert_eq!(&moment[10..11], " ");
    assert_eq!(&moment[13..14], ":");
}

#[test]
fn the_summary_counts_the_findings() {
    let mut md = String::from("x");
    generate_summary_section(&mut md, &sample_issues());
    assert_eq!(md, format!("x{}", SUMMARY));
    let mut empty = String::new();
    generate_summary_section(&mut empty, &TaskIssues::new());
    assert_eq!(
        empty,
        "## Summary\n\n- Total implementations analyzed: **0**\n\
- Tasks with missing states: **0**\n- Invalid state implementations: **0**\n\n"
    );
}

#[test]
fn the_issues_are_listed_by_task_and_repository() {
    let mut md = String::new();
    generate_issues_section(&mut md, &sample_issues());
    assert_eq!(md, ISSUES);
    let mut none = String::from("kept");
    generate_issues_section(&mut none, &TaskIssues::default());
    assert_eq!(none, "kept");
}

#[test]
fn only_the_part_that_has_issues_is_written() {
    let all = vec![invocation("a", "copyfiles", "2", "a/p.yml")];
    let mut md = String::new();
    generate_issues_section(&mut md, &check_task_implementations(&all, &sample_registry()));
    assert_eq!(
        md,
        "## Issues Found\n\n### Invalid State Implementations\n\n#### copyfiles\n\n- a\n  \
- 2: a/p.yml\n\n"
    );
}

#[test]
fn the_details_are_grouped_by_version_and_repository() {
    let mut md = String::new();
    generate_implementation_details(&mut md, &sample_issues());
    assert_eq!(md, DETAILS);
    let mut none = String::new();
    generate_implementation_details(&mut none, &TaskIssues::new());
    assert_eq!(none, "## Implementation Details\n\n");
}

#[test]
fn the_approved_states_of_every_task_are_listed() {
    let mut md = String::new();
    generate_valid_states_section(&mut md, &sample_registry());
    assert_eq!(md, STATES);
    let mut registry = Registry::new();
    registry.add(
        "gitversion",
        TaskValidState::Gitversion(GitVersionState::new("3", "3", "6.0.3")),
    );
    registry.add("GitVersion", TaskValidState::Gitversion(GitVersionState::new("4", "4", "6.1")));
    registry.add("npm", TaskValidState::Default("1".to_string()));
    registry.add("npm", TaskValidState::Default("2".to_string()));
    let mut md = String::new();
    generate_valid_states_section(&mut md, &registry);
    assert_eq!(
        md,
        "## Valid Task States\n\n### gitversion\n\n- setup@3, execute@3, spec@6.0.3\n\
- setup@4, execute@4, spec@6.1\n\n### npm\n\n- @1\n- @2\n\n"
    );
}

fn record(task: &str, version: &str, repo: &str, path: &str, relative: Option<&str>) -> UsageRecord {
    UsageRecord {
        task: task.to_string(),
        version: version.to_string(),
        repo: repo.to_string(),
        path: path.to_string(),
        relative_path: relative.map(|s| s.to_string()),
    }
}

fn sample_usage() -> Vec<UsageRecord> {
    vec![
        record("npm", "2", "web.git", "/w/web.git/ci.yml", None),
        record("copyfiles", "10", "zeta", "/w/zeta/a.yml", Some("a.yml")),
        record("copyfiles", "2", "web.git", "/w/web.git/ci.yml", None),
        record("copyfiles", "2", "api", "api/one.yml", Some("one.yml")),
        record("copyfiles", "2", "api", "/elsewhere/two.yml", None),
        record("copyfiles", "2", "api", "api/three.yml", Some("three.yml")),
    ]
}

const USAGE: &str = "## Task Usage Analysis\n\n### copyfiles\n\n#### Version 10\n\n\
- zeta: a.yml\n\n#### Version 2\n\n- api (3 occurrences)\n  - one.yml\n  - three.yml\n\
- web: /w/web.git/ci.yml\n\n### npm\n\n#### Version 2\n\n- web: /w/web.git/ci.yml\n\n";

#[test]
fn the_usage_is_grouped_in_the_order_of_texts() {
    let mut md = String::new();
    generate_task_usage_section(&mut md, &sample_usage());
    assert_eq!(md, USAGE);
    let mut none = String::new();
    generate_task_usage_section(&mut none, &Vec::new());
    assert_eq!(none, "## Task Usage Analysis\n\n");
}

#[test]
fn the_groups_of_the_usage_can_be_asked_for() {
    let records = sample_usage();
    assert_eq!(usage_tasks(&records), strings(&["copyfiles", "npm"]));
    assert_eq!(usage_versions(&records, "copyfiles"), strings(&["10", "2"]));
    assert_eq!(usage_versions(&records, "none"), Vec::<String>::new());
    assert_eq!(usage_repos(&records, "copyfiles", "2"), strings(&["api", "web.git"]));
    assert_eq!(usage_repos(&records, "copyfiles", "3"), Vec::<String>::new());
    let files = usage_files(&records, "copyfiles", "2", "api");
    assert_eq!(files, vec![records[3].clone(), records[4].clone(), records[5].clone()]);
    assert!(usage_files(&records, "npm", "2", "api").is_empty());
}

#[test]
fn names_are_sorted_by_code_point() {
    assert_eq!(
        sort_names(strings(&["b", "a", "B", "10", "2", "", "a", "é", "ab"])),
        strings(&["", "10", "2", "B", "a", "a", "ab", "b", "é"])
    );
    assert_eq!(sort_names(Vec::new()), Vec::<String>::new());
    assert_eq!(
        distinct_names(&strings(&["b", "a", "b", "c", "a"])),
        strings(&["b", "a", "c"])
    );
    assert_eq!(
        sorted_distinct(&strings(&["b", "a", "b", "c", "a"])),
        strings(&["a", "b", "c"])
    );
}

#[test]
fn every_declaration_of_a_file_becomes_a_record() {
    let got = usage_records("web", "/w/web/ci.yml", Some("ci.yml"), "task: a@1\n# task: b@2\n")
        .unwrap();
    assert_eq!(
        got,
        vec![
            record("a", "1", "web", "/w/web/ci.yml", Some("ci.yml")),
            record("b", "2", "web", "/w/web/ci.yml", Some("ci.yml")),
        ]
    );
    assert_eq!(usage_records("web", "f", None, "nothing").unwrap(), Vec::new());
}

fn sample_failures() -> Vec<NotProcessed> {
    vec![
        NotProcessed { repo: "alpha".to_string(), error: SyncError::BranchNotFound },
        NotProcessed {
            repo: "omega".to_string(),
            error: SyncError::Update("fatal: refusing to merge".to_string()),
        },
    ]
}

const NOT_PROCESSED: &str = "## Repositories Not Processed\n\n\
- alpha: not processed (Failed to fetch repository: no default branch found)\n\
- omega: not processed (Failed to update repository: fatal: refusing to merge)\n\n";

#[test]
fn repositories_that_failed_are_listed_as_not_processed() {
    let mut md = String::from("x");
    generate_not_processed_section(&mut md, &sample_failures());
    assert_eq!(md, format!("x{}", NOT_PROCESSED));
    let mut none = String::from("kept");
    generate_not_processed_section(&mut none, &Vec::new());
    assert_eq!(none, "kept");
}

#[test]
fn errors_are_shown_with_what_the_command_wrote() {
    assert_eq!(
        error_text(&SyncError::Connection("denied".to_string())),
        "Failed to connect to repository: denied"
    );
    assert_eq!(
        error_text(&SyncError::Clone("no space".to_string())),
        "Failed to clone repository: no space"
    );
    assert_eq!(
        error_text(&SyncError::BranchNotFound),
        "Failed to fetch repository: no default branch found"
    );
    assert_eq!(error_text(&SyncError::Update(String::new())), "Failed to update repository: ");
    assert_eq!(
        error_text(&SyncError::ConfigurationMissing),
        "Git credentials not found. Please set them first with --set-git-credentials"
    );
}

#[test]
fn the_failures_of_a_batch_are_kept_in_order() {
    let outcomes: Vec<PerRepoOutcome<u8, SyncError>> = vec![
        PerRepoOutcome { repo: "alpha".to_string(), result: Err(SyncError::BranchNotFound) },
        PerRepoOutcome { repo: "mid".to_string(), result: Ok(1) },
        PerRepoOutcome {
            repo: "omega".to_string(),
            result: Err(SyncError::Update("fatal: refusing to merge".to_string())),
        },
        PerRepoOutcome { repo: "zeta".to_string(), result: Ok(2) },
    ];
    assert_eq!(not_processed(&outcomes), sample_failures());
    let fine: Vec<PerRepoOutcome<u8, SyncError>> =
        vec![PerRepoOutcome { repo: "a".to_string(), result: Ok(1) }];
    assert!(not_processed(&fine).is_empty());
}

#[test]
fn the_report_holds_every_section_in_order() {
    let report = generate_markdown_report(
        &sample_usage(),
        &sample_registry(),
        &sample_issues(),
        &sample_failures(),
    );
    let head = "# Pipeline Task Analysis Report\n\nGenerated on: ";
    assert!(report.starts_with(head));
    let rest = &report[head.len() + 19..];
    assert_eq!(
        rest,
        format!("\n\n{}{}{}{}{}{}", SUMMARY, NOT_PROCESSED, STATES, ISSUES, DETAILS, USAGE)
    );
    let complete =
        generate_markdown_report(&sample_usage(), &sample_registry(), &sample_issues(), &Vec::new());
    assert!(!complete.contains("Not Processed"));
}
