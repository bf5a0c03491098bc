use gavin::extract::{
    declaration_in, declaration_of, declarations_of, extract, extract_declarations,
    extract_invocations, find_lines_containing, find_version_spec, first_groups_of,
    is_pipeline_file, line_is_comment, scan_gitversion, search_task_versions, ExtractionError,
    PipelineFile, TaskInvocation,
};
use gavin::pattern::all_matches;
use gavin::text::{chars_of, string_of};

fn lines_of(text: &str) -> Vec<Vec<char>> {
    text.split('\n').map(chars_of).collect()
}

fn spec_after(text: &str, i: usize) -> Option<String> {
    find_version_spec(&lines_of(text), i).map(|v| string_of(&v))
}

fn invocation(task: &str, version: &str, spec: Option<&str>) -> TaskInvocation {
    TaskInvocation {
        repo_name: "repo".to_string(),
        task_name: task.to_string(),
        version: version.to_string(),
        file_path: "ci/pipeline.yml".to_string(),
        spec: spec.map(|s| s.to_string()),
    }
}

fn found(text: &str) -> Vec<TaskInvocation> {
    extract_invocations("repo", "ci/pipeline.yml", text).unwrap()
}

#[test]
fn the_specification_is_found_after_the_declaration() {
    let text = "- task: gitversion/setup@3\n  inputs:\n    versionSpec: '6.0.3'\n";
    assert_eq!(spec_after(text, 0), Some("6.0.3".to_string()));
    assert_eq!(spec_after(text, 1), Some("6.0.3".to_string()));
    assert_eq!(spec_after(text, 2), None);
    assert_eq!(spec_after(text, 3), None);
    assert_eq!(spec_after(text, 100), None);
    assert_eq!(spec_after("", 0), None);
}

#[test]
fn quotes_around_the_specification_are_removed() {
    assert_eq!(spec_after("x\nversionSpec: \"6.x\"", 0), Some("6.x".to_string()));
    assert_eq!(spec_after("x\nversionSpec: '\"6.x\"'", 0), Some("6.x".to_string()));
    assert_eq!(spec_after("x\nversionSpec:6.0.3", 0), Some("6.0.3".to_string()));
    assert_eq!(spec_after("x\n   versionSpec:   5.x   ", 0), Some("5.x".to_string()));
    assert_eq!(spec_after("x\nversionSpec:", 0), Some(String::new()));
    // Only what stands between the first colon and the next is read.
    assert_eq!(spec_after("x\nversionSpec: 1:2", 0), Some("1".to_string()));
    assert_eq!(
        spec_after("x\ngitVersionSpec: versionSpec: 5", 0),
        Some("versionSpec".to_string())
    );
}

#[test]
fn the_lookahead_stops_at_the_next_task() {
    let text = "task: gitversion/setup@3\ntask: other@1\nversionSpec: '6.0.3'";
    assert_eq!(spec_after(text, 0), None);
    assert_eq!(spec_after(text, 1), Some("6.0.3".to_string()));
    // A line that holds both gives its specification.
    let both = "task: a@1\nversionSpec: 5 # task: x";
    assert_eq!(spec_after(both, 0), Some("5 # task".to_string()));
    // A comment with a task marker stops the search too.
    let comment = "task: a@1\n# task: b@2\nversionSpec: 5";
    assert_eq!(spec_after(comment, 0), None);
}

#[test]
fn the_lookahead_reads_ten_lines_and_no_more() {
    let mut text = String::from("task: gitversion/setup@3\n");
    for _ in 0..9 {
        text.push_str("filler\n");
    }
    let tenth = format!("{}versionSpec: '6.0.3'", text);
    assert_eq!(spec_after(&tenth, 0), Some("6.0.3".to_string()));
    let eleventh = format!("{}filler\nversionSpec: '6.0.3'", text);
    assert_eq!(spec_after(&eleventh, 0), None);
    assert_eq!(spec_after(&eleventh, 1), Some("6.0.3".to_string()));
}

#[test]
fn what_lies_beyond_the_window_changes_nothing() {
    let mut a = String::from("task: gitversion/setup@3\n");
    let mut b = String::from("other start\n");
    for i in 0..10 {
        let line = if i == 4 { "  versionSpec: 7\n" } else { "x\n" };
        a.push_str(line);
        b.push_str(line);
    }
    a.push_str("versionSpec: 1\ntask: z@1");
    b.push_str("something else entirely");
    assert_eq!(spec_after(&a, 0), spec_after(&b, 0));
    assert_eq!(spec_after(&a, 0), Some("7".to_string()));
}

#[test]
fn comments_are_told_by_their_first_characters() {
    assert!(line_is_comment(&chars_of("# task: a@1")));
    assert!(line_is_comment(&chars_of("// task: a@1")));
    assert!(line_is_comment(&chars_of("#")));
    assert!(!line_is_comment(&chars_of("/ task")));
    assert!(!line_is_comment(&chars_of("task: a@1 # note")));
    assert!(!line_is_comment(&chars_of("")));
}

#[test]
fn a_file_without_declarations_gives_nothing() {
    assert_eq!(found(""), Vec::new());
    assert_eq!(found("steps:\n  - script: echo hi\n"), Vec::new());
    assert_eq!(found("# task: copyfiles@1\n  // task: copyfiles@2\n"), Vec::new());
    assert_eq!(found("task: copyfiles\ntask: copyfiles@\ntask: @1\ntask: a@b"), Vec::new());
}

#[test]
fn declarations_are_found_line_by_line() {
    let text = "steps:\n- task: copyfiles@1\n  - task:   PowerShell@2 # run\n\
                # task: hidden@9\n\t-  task: publish/artifacts@10\r\ntask:x@3 task:y@4\n";
    assert_eq!(
        found(text),
        vec![
            invocation("copyfiles", "1", None),
            invocation("PowerShell", "2", None),
            invocation("publish/artifacts", "10", None),
            invocation("x", "3", None),
        ]
    );
}

#[test]
fn the_version_is_the_run_of_digits_after_the_at_sign() {
    assert_eq!(found("task: a@12.5"), vec![invocation("a", "12", None)]);
    assert_eq!(found("task: a@1b"), vec![invocation("a", "1", None)]);
    assert_eq!(found("xtask: a_b/c@007"), vec![invocation("a_b/c", "007", None)]);
    assert_eq!(found("task: a-b@1"), Vec::new());
    assert_eq!(found("task: a @1"), Vec::new());
    assert_eq!(found("Task: a@1"), Vec::new());
}

#[test]
fn the_setup_step_carries_its_specification() {
    let text = "- task: gitversion/setup@3\n  inputs:\n    versionSpec: '6.0.3'\n\
                - task: gitversion/execute@3\n  inputs:\n    versionSpec: 'ignored'\n";
    assert_eq!(
        found(text),
        vec![
            invocation("gitversion/setup", "3", Some("6.0.3")),
            invocation("gitversion/execute", "3", None),
        ]
    );
    let without = "- task: gitversion/setup@3\n- task: gitversion/execute@3\n";
    assert_eq!(
        found(without),
        vec![
            invocation("gitversion/setup", "3", None),
            invocation("gitversion/execute", "3", None),
        ]
    );
    // Other names get no specification, whatever their case.
    let other = "- task: GitVersion/setup@3\n  versionSpec: 1\n";
    assert_eq!(found(other), vec![invocation("GitVersion/setup", "3", None)]);
}

#[test]
fn the_repository_and_file_are_kept() {
    let got = extract_invocations("my-repo", "a/b.yml", "task: x@1").unwrap();
    assert_eq!(got.len(), 1);
    assert_eq!(got[0].repo_name, "my-repo");
    assert_eq!(got[0].file_path, "a/b.yml");
    assert_eq!(got[0].duplicate(), got[0]);
}

fn groups(items: &[Option<&str>]) -> Vec<Option<String>> {
    items.iter().map(|g| g.map(|s| s.to_string())).collect()
}

#[test]
fn a_declaration_needs_both_groups() {
    let pair = Some(("a".to_string(), "1".to_string()));
    assert_eq!(declaration_in(&groups(&[Some("task: a@1"), Some("a"), Some("1")])), pair);
    assert_eq!(declaration_in(&groups(&[Some("x"), Some("a"), Some("1"), Some("z")])), pair);
    assert_eq!(declaration_in(&groups(&[Some("task: a@1"), None, Some("1")])), None);
    assert_eq!(declaration_in(&groups(&[Some("task: a@1"), Some("a"), None])), None);
    assert_eq!(declaration_in(&groups(&[Some("task: a@1"), Some("a")])), None);
    assert_eq!(declaration_in(&groups(&[])), None);
    assert_eq!(declaration_of(&Vec::new()), None);
    assert_eq!(
        declaration_of(&vec![
            groups(&[Some("m"), Some("a"), Some("1")]),
            groups(&[Some("n"), Some("b"), Some("2")]),
        ]),
        pair
    );
    assert_eq!(
        declaration_of(&vec![groups(&[Some("m"), None, None]), groups(&[Some("n"), Some("b"), Some("2")])]),
        None
    );
    assert_eq!(
        declarations_of(&vec![
            groups(&[Some("m"), Some("a"), Some("1")]),
            groups(&[Some("m"), None, Some("1")]),
            groups(&[Some("n"), Some("b"), Some("2")]),
        ]),
        vec![("a".to_string(), "1".to_string()), ("b".to_string(), "2".to_string())]
    );
    assert_eq!(
        first_groups_of(&vec![
            groups(&[Some("m"), Some("1")]),
            groups(&[Some("m")]),
            groups(&[Some("m"), None]),
            groups(&[Some("n"), Some("2"), Some("x")]),
        ]),
        vec!["1".to_string(), "2".to_string()]
    );
}

#[test]
fn matches_come_with_their_groups() {
    let got = all_matches("task:\\s*([\\w/]+)@(\\d+)", "task: a@1 and task:b/c@22").unwrap();
    assert_eq!(
        got,
        vec![
            groups(&[Some("task: a@1"), Some("a"), Some("1")]),
            groups(&[Some("task:b/c@22"), Some("b/c"), Some("22")]),
        ]
    );
    let optional = all_matches("(a)|(b)", "ab").unwrap();
    assert_eq!(
        optional,
        vec![groups(&[Some("a"), Some("a"), None]), groups(&[Some("b"), None, Some("b")])]
    );
    assert_eq!(all_matches("x", "abc").unwrap(), Vec::<Vec<Option<String>>>::new());
    let err = all_matches("(", "abc").unwrap_err();
    assert!(!err.message.is_empty());
}

#[test]
fn a_text_as_a_whole_gives_every_declaration() {
    let text = "# task: hidden@9\ntask: a@1 task: b@2\ntask:\n  c@3\n";
    assert_eq!(
        extract_declarations(text).unwrap(),
        vec![
            ("hidden".to_string(), "9".to_string()),
            ("a".to_string(), "1".to_string()),
            ("b".to_string(), "2".to_string()),
            ("c".to_string(), "3".to_string()),
        ]
    );
    assert_eq!(extract_declarations("").unwrap(), Vec::new());
}

#[test]
fn the_versions_of_one_task_are_searched() {
    let text = "task: copyfiles@1\ntask: other@2\ntask:copyfiles @3\ntask: copyfilesx@4\n";
    assert_eq!(
        search_task_versions(text, "copyfiles").unwrap(),
        vec!["1".to_string(), "3".to_string()]
    );
    assert_eq!(search_task_versions(text, "none").unwrap(), Vec::<String>::new());
    // The name is part of the pattern as it stands.
    assert_eq!(
        search_task_versions(text, "o.her").unwrap(),
        vec!["2".to_string()]
    );
    assert!(search_task_versions(text, "(").is_err());
    assert!(search_task_versions("", "[").is_err());
}

#[test]
fn a_file_is_scanned_for_the_versioning_tool() {
    let text = "steps:\n- task: gitversion/setup@3\n  inputs:\n    versionSpec: '6.0.3'\n\
                - task: gitversion/execute@3\n";
    let got = scan_gitversion("ci/pipeline.yml", text);
    assert_eq!(got.file_path, "ci/pipeline.yml");
    assert_eq!(got.setup, Some(("3".to_string(), Some("6.0.3".to_string()))));
    assert_eq!(got.execute, Some("3".to_string()));

    let none = scan_gitversion("x.yml", "task: copyfiles@1\n# task: gitversion/setup@3\n");
    assert_eq!(none.setup, None);
    assert_eq!(none.execute, None);
}

#[test]
fn the_last_step_of_a_kind_decides() {
    let text = "task: gitversion/setup@3\nversionSpec: 5\ntask: gitversion/setup@4\n\
                task: gitversion/execute@1\ntask: gitversion/execute@2 # later\n";
    let got = scan_gitversion("f", text);
    assert_eq!(got.setup, Some(("4".to_string(), None)));
    assert_eq!(got.execute, Some("2 # later".to_string()));
    // Only the two steps count, and no comment is read.
    let odd = "// task: gitversion/setup@7\ntask: gitversion/other@1\n# task: gitversion/execute@1";
    let got = scan_gitversion("f", odd);
    assert_eq!(got.setup, None);
    assert_eq!(got.execute, None);
    let no_at = scan_gitversion("f", "task: gitversion/setup\n");
    assert_eq!(no_at.setup, Some((String::new(), None)));
}

#[test]
fn lines_that_hold_a_query_are_numbered_from_one() {
    let text = "first\n  needle here  \nthird\nneedle\n";
    assert_eq!(
        find_lines_containing(text, "needle"),
        vec![(2, "needle here".to_string()), (4, "needle".to_string())]
    );
    assert_eq!(find_lines_containing(text, "absent"), Vec::new());
    assert_eq!(find_lines_containing("a\nb", "").len(), 2);
    assert_eq!(find_lines_containing("", "x"), Vec::new());
}

#[test]
fn pipeline_files_are_told_by_name() {
    assert!(is_pipeline_file("repo/azure-pipelines.yml"));
    assert!(is_pipeline_file("repo/azure-pipelines.yaml"));
    assert!(is_pipeline_file("pipelines/build.yml"));
    assert!(is_pipeline_file("repo/x.pipeline.yaml"));
    assert!(!is_pipeline_file("repo/azure-pipelines.json"));
    assert!(!is_pipeline_file("repo/build.yml"));
    assert!(!is_pipeline_file("pipeline/.yml"));
    assert!(!is_pipeline_file("pipeline/yml"));
    assert!(!is_pipeline_file("pipeline.yml/readme"));
    assert!(!is_pipeline_file(""));
    assert!(is_pipeline_file("pipeline/.hidden.yml"));
    assert!(!is_pipeline_file("pipeline/a.YML"));
}

#[test]
fn an_unreadable_file_does_not_keep_the_others_from_being_read() {
    let file = |repo: &str, path: &str, content: Result<&str, &str>| PipelineFile {
        repo_name: repo.to_string(),
        file_path: path.to_string(),
        content: content.map(|s| s.to_string()).map_err(|s| s.to_string()),
    };
    let files = vec![
        file("a", "a/one.yml", Ok("task: x@1\ntask: y@2\n")),
        file("a", "a/two.yml", Err("permission denied")),
        file("b", "b/one.yml", Ok("nothing here")),
        file("b", "b/two.yml", Ok("task: gitversion/setup@3\nversionSpec: 6")),
        file("c", "c/one.yml", Err("not utf-8")),
    ];
    let got = extract(&files).unwrap();
    let shown: Vec<(String, String, String, String, Option<String>)> = got
        .invocations
        .iter()
        .map(|i| {
            (
                i.repo_name.clone(),
                i.file_path.clone(),
                i.task_name.clone(),
                i.version.clone(),
                i.spec.clone(),
            )
        })
        .collect();
    let row = |r: &str, f: &str, t: &str, v: &str, s: Option<&str>| {
        (r.to_string(), f.to_string(), t.to_string(), v.to_string(), s.map(|x| x.to_string()))
    };
    assert_eq!(
        shown,
        vec![
            row("a", "a/one.yml", "x", "1", None),
            row("a", "a/one.yml", "y", "2", None),
            row("b", "b/two.yml", "gitversion/setup", "3", Some("6")),
        ]
    );
    assert_eq!(
        got.failures,
        vec![
            ExtractionError {
                file_path: "a/two.yml".to_string(),
                reason: "permission denied".to_string()
            },
            ExtractionError { file_path: "c/one.yml".to_string(), reason: "not utf-8".to_string() },
        ]
    );
    let none = extract(&Vec::new()).unwrap();
    assert!(none.invocations.is_empty() && none.failures.is_empty());
}
