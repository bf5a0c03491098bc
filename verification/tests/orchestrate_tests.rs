use gavin::credentials::{
    obfuscate, parse_credentials, require_credentials, stored_token, Credentials,
};
use gavin::git_manager::{GitManager, Outcome, SyncError, SyncMode, SyncState};
use gavin::orchestrate::{
    default_limit, name_outcomes, parse_repo_list, repo_short_name, sort_by_repo,
    split_reachable, PerRepoOutcome, Scheduler,
};
use gavin::utils::sanitize_file_path;

fn ok() -> Outcome {
    Outcome { success: true, stdout: String::new(), stderr: String::new() }
}

fn failed(stderr: &str) -> Outcome {
    Outcome { success: false, stdout: String::new(), stderr: stderr.to_string() }
}

#[test]
fn the_limit_is_the_number_of_processors_or_four() {
    assert_eq!(default_limit(Some(8)), 8);
    assert_eq!(default_limit(Some(1)), 1);
    assert_eq!(default_limit(None), 4);
}

#[test]
fn no_more_units_hold_a_slot_than_the_limit_allows() {
    for limit in 1..5usize {
        let total = 11usize;
        let mut s: Scheduler<usize> = Scheduler::new(total, limit);
        let mut step = 0usize;
        let mut most = 0usize;
        while !s.is_done() {
            // Start as many as may start.
            while let Some(unit) = s.start_next() {
                assert!(unit < total);
                assert!(s.running.len() <= limit);
            }
            assert!(s.running.len() <= limit);
            most = most.max(s.running.len());
            assert_eq!(s.start_next(), None);
            // End one of the running units, not always the oldest.
            let pick = s.running[step % s.running.len()];
            assert!(s.is_sound());
            assert!(s.complete(pick, pick * 10));
            assert!(s.is_sound());
            assert!(s.running.len() < limit);
            step += 1;
        }
        assert_eq!(most, limit.min(total));
        assert_eq!(step, total);
        let outcomes = s.take_outcomes();
        let expected: Vec<usize> = (0..total).map(|u| u * 10).collect();
        assert_eq!(outcomes, expected);
    }
}

#[test]
fn with_no_slot_nothing_starts() {
    let mut s: Scheduler<u8> = Scheduler::new(3, 0);
    assert_eq!(s.start_next(), None);
    assert!(!s.is_done());
    let mut empty: Scheduler<u8> = Scheduler::new(0, 2);
    assert!(empty.is_done());
    assert_eq!(empty.start_next(), None);
    assert_eq!(empty.take_outcomes(), Vec::<u8>::new());
}

#[test]
fn only_a_running_unit_can_end() {
    let mut s: Scheduler<&str> = Scheduler::new(3, 2);
    assert!(!s.complete(0, "early"));
    assert_eq!(s.start_next(), Some(0));
    assert_eq!(s.start_next(), Some(1));
    assert_eq!(s.start_next(), None);
    assert!(!s.complete(2, "not started"));
    assert!(!s.complete(7, "no such unit"));
    assert!(s.complete(1, "one"));
    assert!(!s.complete(1, "twice"));
    assert_eq!(s.start_next(), Some(2));
    assert!(s.complete(0, "zero"));
    assert!(s.complete(2, "two"));
    assert!(s.is_done());
    assert_eq!(s.take_outcomes(), vec!["zero", "one", "two"]);
}

/// Synchronizes one repository on the given outcomes of its actions.
fn synchronize(location: &str, outcomes: &[Outcome]) -> Result<(), SyncError> {
    let m = GitManager::new("u".to_string(), "t".to_string(), location, "/w");
    let (mut state, mut action) = m.begin(SyncMode::Converge, false);
    let mut next = outcomes.iter();
    while action.is_some() {
        let (s, a) = m.advance(&state, next.next().unwrap());
        state = s;
        action = a;
    }
    match state {
        SyncState::Ready => Ok(()),
        SyncState::Failed(e) => Err(e),
        other => panic!("unexpected end {:?}", other),
    }
}

#[test]
fn one_failing_repository_does_not_end_the_batch() {
    let locations = ["https://h/o/zeta.git", "https://h/o/alpha", "https://h/o/mid.git"];
    let mut no_branch = vec![ok(); 6];
    no_branch.extend(vec![failed("no branch"); 3]);
    let answers = [vec![ok(); 8], no_branch, vec![ok(); 8]];

    let mut s: Scheduler<Result<(), SyncError>> = Scheduler::new(locations.len(), 2);
    while !s.is_done() {
        let mut started = Vec::new();
        while let Some(unit) = s.start_next() {
            started.push(unit);
        }
        for unit in started {
            let result = synchronize(locations[unit], &answers[unit]);
            assert!(s.complete(unit, result));
        }
    }
    let results = s.take_outcomes();
    assert_eq!(results.len(), 3);
    let places: Vec<String> = locations.iter().map(|l| l.to_string()).collect();
    let outcomes = name_outcomes(&places, results);
    assert_eq!(outcomes[0].repo, "zeta");
    assert_eq!(outcomes[1].repo, "alpha");
    assert_eq!(outcomes[2].repo, "mid");
    let sorted = sort_by_repo(outcomes);
    let shown: Vec<(String, Result<(), SyncError>)> =
        sorted.into_iter().map(|o| (o.repo, o.result)).collect();
    assert_eq!(
        shown,
        vec![
            ("alpha".to_string(), Err(SyncError::BranchNotFound)),
            ("mid".to_string(), Ok(())),
            ("zeta".to_string(), Ok(())),
        ]
    );
}

#[test]
fn outcomes_are_sorted_by_name_and_equal_names_keep_their_order() {
    let input: Vec<PerRepoOutcome<u32, String>> = vec![
        PerRepoOutcome { repo: "b".to_string(), result: Ok(1) },
        PerRepoOutcome { repo: "a".to_string(), result: Err("x".to_string()) },
        PerRepoOutcome { repo: "b".to_string(), result: Ok(2) },
        PerRepoOutcome { repo: "B".to_string(), result: Ok(3) },
        PerRepoOutcome { repo: "".to_string(), result: Ok(4) },
        PerRepoOutcome { repo: "a".to_string(), result: Ok(5) },
        PerRepoOutcome { repo: "ab".to_string(), result: Ok(6) },
    ];
    let shown: Vec<(String, Result<u32, String>)> =
        sort_by_repo(input).into_iter().map(|o| (o.repo, o.result)).collect();
    assert_eq!(
        shown,
        vec![
            ("".to_string(), Ok(4)),
            ("B".to_string(), Ok(3)),
            ("a".to_string(), Err("x".to_string())),
            ("a".to_string(), Ok(5)),
            ("ab".to_string(), Ok(6)),
            ("b".to_string(), Ok(1)),
            ("b".to_string(), Ok(2)),
        ]
    );
    let none: Vec<PerRepoOutcome<u32, String>> = Vec::new();
    assert!(sort_by_repo(none).is_empty());
}

#[test]
fn short_names_are_the_last_segment_without_the_suffix() {
    assert_eq!(repo_short_name("https://host/org/repo.git"), "repo");
    assert_eq!(repo_short_name("https://host/org/repo"), "repo");
    assert_eq!(repo_short_name("repo.git.git"), "repo");
    assert_eq!(repo_short_name("https://host/org/"), "");
    assert_eq!(repo_short_name("a/b.gitx"), "b.gitx");
}

#[test]
fn a_list_of_locations_is_split_at_commas() {
    assert_eq!(
        parse_repo_list(" https://h/a , https://h/b,https://h/c "),
        vec!["https://h/a", "https://h/b", "https://h/c"]
    );
    assert_eq!(parse_repo_list(""), vec![""]);
    assert_eq!(parse_repo_list("a,,b"), vec!["a", "", "b"]);
}

#[test]
fn candidates_are_parted_by_their_probes() {
    let candidates: Vec<String> = ["a", "b", "c", "d"].iter().map(|s| s.to_string()).collect();
    let probes = vec![ok(), failed("refused"), ok(), failed("timeout")];
    let parts = split_reachable(&candidates, &probes);
    assert_eq!(parts.reachable, vec!["a", "c"]);
    assert_eq!(
        parts.unreachable,
        vec![
            ("b".to_string(), SyncError::Connection("refused".to_string())),
            ("d".to_string(), SyncError::Connection("timeout".to_string())),
        ]
    );
    let none = split_reachable(&Vec::new(), &Vec::new());
    assert!(none.reachable.is_empty() && none.unreachable.is_empty());
    let all_fail = split_reachable(&candidates[..1].to_vec(), &vec![failed("x")]);
    assert!(all_fail.reachable.is_empty());
    assert_eq!(all_fail.unreachable.len(), 1);
}

#[test]
fn credentials_are_a_name_and_a_token_around_one_colon() {
    assert_eq!(
        parse_credentials("user:tok"),
        Ok(Credentials { username: "user".to_string(), token: "tok".to_string() })
    );
    assert_eq!(
        parse_credentials(":"),
        Ok(Credentials { username: String::new(), token: String::new() })
    );
    let message = "Invalid credentials format. Expected 'username:token'";
    assert_eq!(parse_credentials("user"), Err(message.to_string()));
    assert_eq!(parse_credentials("a:b:c"), Err(message.to_string()));
    assert_eq!(parse_credentials(""), Err(message.to_string()));
}

#[test]
fn a_batch_without_credentials_cannot_start() {
    assert_eq!(require_credentials(None), Err(SyncError::ConfigurationMissing));
    let c = Credentials { username: "u".to_string(), token: "t".to_string() };
    assert_eq!(require_credentials(Some(c.clone())), Ok(c));
}

#[test]
fn a_token_is_stored_with_every_bit_turned() {
    assert_eq!(obfuscate(&vec![0x00, 0xFF, 0x0F, 0x61]), vec![0xFF, 0x00, 0xF0, 0x9E]);
    assert_eq!(obfuscate(&Vec::new()), Vec::<u8>::new());
    assert_eq!(stored_token("a"), vec![0x9E]);
    for token in ["", "abc", "tök€n", "ghp_0123456789"] {
        let stored = stored_token(token);
        assert_eq!(stored.len(), token.len());
        let back = obfuscate(&stored);
        assert_eq!(String::from_utf8(back).unwrap(), token);
    }
}

#[test]
fn a_path_becomes_the_name_of_one_file() {
    assert_eq!(sanitize_file_path("report.md"), "report.md");
    assert_eq!(sanitize_file_path("../../etc/passwd"), ".._.._etc_passwd");
    assert_eq!(sanitize_file_path("a\\b/c"), "a_b_c");
    assert_eq!(sanitize_file_path(""), "");
    for path in ["/", "\\\\", "a/b\\c/d", "plain", "é/ü"] {
        assert_eq!(sanitize_file_path(path), path.replace(['/', '\\'], "_"));
    }
}

#[test]
fn a_schedule_that_was_tampered_with_is_not_sound() {
    let mut s: Scheduler<u8> = Scheduler::new(3, 2);
    assert!(s.is_sound());
    assert_eq!(s.start_next(), Some(0));
    assert!(s.is_running(0));
    assert!(!s.is_running(1));
    assert!(s.is_sound());
    let mut over = Scheduler::<u8> { limit: 1, next: 2, running: vec![0, 1], outcomes: vec![None, None] };
    assert!(!over.is_sound());
    over.limit = 2;
    assert!(over.is_sound());
    let twice = Scheduler::<u8> { limit: 2, next: 2, running: vec![1, 1], outcomes: vec![Some(1), None] };
    assert!(!twice.is_sound());
    let early = Scheduler::<u8> { limit: 2, next: 1, running: vec![1], outcomes: vec![Some(1), None] };
    assert!(!early.is_sound());
    let lost = Scheduler::<u8> { limit: 2, next: 2, running: vec![1], outcomes: vec![None, None] };
    assert!(!lost.is_sound());
    let both = Scheduler::<u8> { limit: 2, next: 2, running: vec![1], outcomes: vec![Some(1), Some(2)] };
    assert!(!both.is_sound());
    let beyond = Scheduler::<u8> { limit: 2, next: 3, running: vec![], outcomes: vec![Some(1)] };
    assert!(!beyond.is_sound());
}
