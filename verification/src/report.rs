//! The report of an audit, as text with headings and lists.

use crate::compliance::{other_task_names, states_of, tool_name, PolicyView, Registry};
use crate::git_manager::{copy_error, error_text, fault_text, SyncError, SyncFault};
use crate::orchestrate::PerRepoOutcome;
use crate::issues::TaskIssues;
use crate::table::Table;
use crate::task::{format_task_states, TaskImplementation, TaskKind, ValidState};
use crate::orchestrate::{repo_short_name, short_name};
use crate::text::{
    chars_of, decimal, push_decimal, push_str, same_str, string_of, string_texts,
};
use crate::usage::{
    distinct, distinct_names, records_of, repo_keys, sorted_distinct, sorted_set, task_keys,
    usage_files, usage_repos, usage_tasks, usage_versions, usages, version_keys, Usage,
    UsageRecord,
};
use std::fmt::Write;
use vstd::prelude::*;

verus! {

/// The text of the moment at which `chrono::Local::now` is called, as
/// `chrono` formats it with the pattern. Nothing is promised of the
/// text: it depends on the clock and on the time zone of the machine.
#[verifier::external_body]
fn local_time_text(pattern: &str) -> String {
    let mut out = String::new();
    let _ = write!(out, "{}", chrono::Local::now().format(pattern));
    out
}

/// The head of a report written at the given moment.
pub open spec fn header_text(moment: Seq<char>) -> Seq<char> {
    "# Pipeline Task Analysis Report\n\n"@ + "Generated on: "@ + moment + "\n\n"@
}

/// Appends the head of a report written at the given moment.
pub fn write_header(md: &mut String, moment: &str)
    ensures
        final(md)@ == old(md)@ + header_text(moment@),
{
    let mut out = chars_of(md.as_str());
    push_str(&mut out, "# Pipeline Task Analysis Report\n\n");
    push_str(&mut out, "Generated on: ");
    push_str(&mut out, moment);
    push_str(&mut out, "\n\n");
    assert(out@ == old(md)@ + header_text(moment@));
    *md = string_of(&out);
}

/// Appends the head of a report written now, the moment shown as year,
/// month, day, hour, minute and second of the local time.
pub fn generate_header(md: &mut String)
    ensures
        exists|moment: Seq<char>| final(md)@ == old(md)@ + header_text(moment),
{
    let moment = local_time_text("%Y-%m-%d %H:%M:%S");
    write_header(md, moment.as_str());
}

/// How many occurrences the first `n` entries of a table hold.
pub open spec fn occurrences_in(table: Table<Vec<TaskImplementation>>, n: int) -> nat
    decreases n,
{
    if n <= 0 {
        0
    } else {
        occurrences_in(table, n - 1) + table.value_at(n - 1)@.len()
    }
}

/// How many repositories the first `n` entries of a table hold, each
/// counted under every task it stands under.
pub open spec fn repositories_in(table: Table<Table<Vec<TaskImplementation>>>, n: int) -> nat
    decreases n,
{
    if n <= 0 {
        0
    } else {
        repositories_in(table, n - 1) + table.value_at(n - 1).count() as nat
    }
}

/// The summary of the findings: how many occurrences were read, how many
/// tasks have no approved state, and how many repositories hold an
/// occurrence that no state approves.
pub open spec fn summary_text(issues: TaskIssues) -> Seq<char> {
    "## Summary\n\n"@ + "- Total implementations analyzed: **"@ + decimal(
        occurrences_in(issues.all_implementations, issues.all_implementations.count()),
    ) + "**\n"@ + "- Tasks with missing states: **"@ + decimal(
        issues.missing_states@.len(),
    ) + "**\n"@ + "- Invalid state implementations: **"@ + decimal(
        repositories_in(issues.invalid_states, issues.invalid_states.count()),
    ) + "**\n\n"@
}

/// Counts the occurrences that a table holds.
fn count_occurrences(table: &Table<Vec<TaskImplementation>>) -> (r: u128)
    ensures
        r == occurrences_in(*table, table.count()),
{
    let mut total: u128 = 0;
    let mut i: usize = 0;
    while i < table.entries.len()
        invariant
            i <= table.entries.len(),
            total == occurrences_in(*table, i as int),
            total <= i * usize::MAX,
        decreases table.entries.len() - i,
    {
        assert((i + 1) * usize::MAX == i * usize::MAX + usize::MAX) by (nonlinear_arith);
        assert(i * usize::MAX <= usize::MAX * usize::MAX) by (nonlinear_arith)
            requires
                i <= usize::MAX,
        ;
        total = total + table.entries[i].1.len() as u128;
        i = i + 1;
    }
    total
}

/// Counts the repositories that a table holds.
fn count_repositories(table: &Table<Table<Vec<TaskImplementation>>>) -> (r: u128)
    ensures
        r == repositories_in(*table, table.count()),
{
    let mut total: u128 = 0;
    let mut i: usize = 0;
    while i < table.entries.len()
        invariant
            i <= table.entries.len(),
            total == repositories_in(*table, i as int),
            total <= i * usize::MAX,
        decreases table.entries.len() - i,
    {
        assert((i + 1) * usize::MAX == i * usize::MAX + usize::MAX) by (nonlinear_arith);
        assert(i * usize::MAX <= usize::MAX * usize::MAX) by (nonlinear_arith)
            requires
                i <= usize::MAX,
        ;
        total = total + table.entries[i].1.len() as u128;
        i = i + 1;
    }
    total
}

/// Appends the summary of the findings.
pub fn generate_summary_section(md: &mut String, issues: &TaskIssues)
    ensures
        final(md)@ == old(md)@ + summary_text(*issues),
{
    let mut out = chars_of(md.as_str());
    push_str(&mut out, "## Summary\n\n");
    push_str(&mut out, "- Total implementations analyzed: **");
    push_decimal(&mut out, count_occurrences(&issues.all_implementations));
    push_str(&mut out, "**\n");
    push_str(&mut out, "- Tasks with missing states: **");
    push_decimal(&mut out, issues.missing_states.len() as u128);
    push_str(&mut out, "**\n");
    push_str(&mut out, "- Invalid state implementations: **");
    push_decimal(&mut out, count_repositories(&issues.invalid_states));
    push_str(&mut out, "**\n\n");
    assert(out@ == old(md)@ + summary_text(*issues));
    *md = string_of(&out);
}

/// One line for each of the first `n` names.
pub open spec fn name_lines(names: Seq<String>, n: int) -> Seq<char>
    decreases n,
{
    if n <= 0 {
        Seq::<char>::empty()
    } else {
        name_lines(names, n - 1) + "- "@ + names[n - 1]@ + "\n"@
    }
}

/// One line for each of the first `n` occurrences: its version and file.
pub open spec fn occurrence_lines(list: Seq<TaskImplementation>, n: int) -> Seq<char>
    decreases n,
{
    if n <= 0 {
        Seq::<char>::empty()
    } else {
        occurrence_lines(list, n - 1) + "  - "@ + list[n - 1].version@ + ": "@ + list[n
            - 1].file_path@ + "\n"@
    }
}

/// For each of the first `n` repositories, its name and its occurrences.
pub open spec fn repo_blocks(table: Table<Vec<TaskImplementation>>, n: int) -> Seq<char>
    decreases n,
{
    if n <= 0 {
        Seq::<char>::empty()
    } else {
        repo_blocks(table, n - 1) + "- "@ + table.key_at(n - 1) + "\n"@ + occurrence_lines(
            table.value_at(n - 1)@,
            table.value_at(n - 1)@.len() as int,
        )
    }
}

/// For each of the first `n` tasks, its name and its repositories.
pub open spec fn task_blocks(table: Table<Table<Vec<TaskImplementation>>>, n: int) -> Seq<char>
    decreases n,
{
    if n <= 0 {
        Seq::<char>::empty()
    } else {
        task_blocks(table, n - 1) + "#### "@ + table.key_at(n - 1) + "\n\n"@ + repo_blocks(
            table.value_at(n - 1),
            table.value_at(n - 1).count(),
        ) + "\n"@
    }
}

/// The part of a report on tasks without states, if there are any.
pub open spec fn missing_text(issues: TaskIssues) -> Seq<char> {
    if issues.missing_states@.len() == 0 {
        Seq::<char>::empty()
    } else {
        "### Tasks Missing State Definitions\n\n"@ + name_lines(
            issues.missing_states@,
            issues.missing_states@.len() as int,
        ) + "\n"@
    }
}

/// The part of a report on invalid occurrences, if there are any.
pub open spec fn invalid_text(issues: TaskIssues) -> Seq<char> {
    if issues.invalid_states.count() == 0 {
        Seq::<char>::empty()
    } else {
        "### Invalid State Implementations\n\n"@ + task_blocks(
            issues.invalid_states,
            issues.invalid_states.count(),
        )
    }
}

/// The section of a report on what is wrong: nothing where nothing is.
pub open spec fn issues_text(issues: TaskIssues) -> Seq<char> {
    if issues.missing_states@.len() == 0 && issues.invalid_states.count() == 0 {
        Seq::<char>::empty()
    } else {
        "## Issues Found\n\n"@ + missing_text(issues) + invalid_text(issues)
    }
}

fn push_name_lines(out: &mut Vec<char>, names: &Vec<String>)
    ensures
        final(out)@ == old(out)@ + name_lines(names@, names@.len() as int),
{
    let mut i: usize = 0;
    assert(out@ == old(out)@ + name_lines(names@, 0));
    while i < names.len()
        invariant
            i <= names.len(),
            out@ == old(out)@ + name_lines(names@, i as int),
        decreases names.len() - i,
    {
        push_str(out, "- ");
        push_str(out, names[i].as_str());
        push_str(out, "\n");
        assert(out@ == old(out)@ + name_lines(names@, i + 1));
        i = i + 1;
    }
}

fn push_occurrence_lines(out: &mut Vec<char>, list: &Vec<TaskImplementation>)
    ensures
        final(out)@ == old(out)@ + occurrence_lines(list@, list@.len() as int),
{
    let mut i: usize = 0;
    assert(out@ == old(out)@ + occurrence_lines(list@, 0));
    while i < list.len()
        invariant
            i <= list.len(),
            out@ == old(out)@ + occurrence_lines(list@, i as int),
        decreases list.len() - i,
    {
        push_str(out, "  - ");
        push_str(out, list[i].version.as_str());
        push_str(out, ": ");
        push_str(out, list[i].file_path.as_str());
        push_str(out, "\n");
        assert(out@ == old(out)@ + occurrence_lines(list@, i + 1));
        i = i + 1;
    }
}

fn push_repo_blocks(out: &mut Vec<char>, table: &Table<Vec<TaskImplementation>>)
    ensures
        final(out)@ == old(out)@ + repo_blocks(*table, table.count()),
{
    let mut i: usize = 0;
    assert(out@ == old(out)@ + repo_blocks(*table, 0));
    while i < table.entries.len()
        invariant
            i <= table.entries.len(),
            out@ == old(out)@ + repo_blocks(*table, i as int),
        decreases table.entries.len() - i,
    {
        push_str(out, "- ");
        push_str(out, table.entries[i].0.as_str());
        push_str(out, "\n");
        push_occurrence_lines(out, &table.entries[i].1);
        assert(out@ == old(out)@ + repo_blocks(*table, i + 1));
        i = i + 1;
    }
}

fn push_task_blocks(out: &mut Vec<char>, table: &Table<Table<Vec<TaskImplementation>>>)
    ensures
        final(out)@ == old(out)@ + task_blocks(*table, table.count()),
{
    let mut i: usize = 0;
    assert(out@ == old(out)@ + task_blocks(*table, 0));
    while i < table.entries.len()
        invariant
            i <= table.entries.len(),
            out@ == old(out)@ + task_blocks(*table, i as int),
        decreases table.entries.len() - i,
    {
        push_str(out, "#### ");
        push_str(out, table.entries[i].0.as_str());
        push_str(out, "\n\n");
        push_repo_blocks(out, &table.entries[i].1);
        push_str(out, "\n");
        assert(out@ == old(out)@ + task_blocks(*table, i + 1));
        i = i + 1;
    }
}

/// Appends the section on what is wrong: the tasks without states, and by
/// task and repository the occurrences that no state approves.
pub fn generate_issues_section(md: &mut String, issues: &TaskIssues)
    ensures
        final(md)@ == old(md)@ + issues_text(*issues),
{
    if issues.missing_states.len() == 0 && issues.invalid_states.entries.len() == 0 {
        assert(md@ + Seq::<char>::empty() == md@);
        return ;
    }
    let mut out = chars_of(md.as_str());
    push_str(&mut out, "## Issues Found\n\n");
    let ghost start = out@;
    if issues.missing_states.len() > 0 {
        push_str(&mut out, "### Tasks Missing State Definitions\n\n");
        push_name_lines(&mut out, &issues.missing_states);
        push_str(&mut out, "\n");
    }
    assert(out@ == start + missing_text(*issues));
    let ghost mid = out@;
    if issues.invalid_states.entries.len() > 0 {
        push_str(&mut out, "### Invalid State Implementations\n\n");
        push_task_blocks(&mut out, &issues.invalid_states);
    }
    assert(out@ == mid + invalid_text(*issues));
    assert(out@ == old(md)@ + issues_text(*issues));
    *md = string_of(&out);
}

/// The part of a report on the approved states of one task.
pub open spec fn states_block(name: Seq<char>, states: Seq<ValidState>) -> Seq<char> {
    "### "@ + name + "\n\n"@ + crate::task::states_text(states) + "\n\n"@
}

/// The parts on the first `n` of the named tasks.
pub open spec fn states_blocks(registry: Seq<PolicyView>, names: Seq<Seq<char>>, n: int) -> Seq<
    char,
>
    decreases n,
{
    if n <= 0 {
        Seq::<char>::empty()
    } else {
        states_blocks(registry, names, n - 1) + states_block(
            names[n - 1],
            states_of(registry, names[n - 1]),
        )
    }
}

/// The section of a report on the approved states: those of the
/// versioning tool, then those of every other task that the registry
/// names.
pub open spec fn valid_states_text(registry: Seq<PolicyView>) -> Seq<char> {
    let others = other_task_names(registry, registry.len() as int);
    "## Valid Task States\n\n"@ + states_block(tool_name(), states_of(registry, tool_name()))
        + states_blocks(registry, others, others.len() as int)
}

/// Appends the section on the approved states of every task.
pub fn generate_valid_states_section(md: &mut String, registry: &Registry)
    ensures
        final(md)@ == old(md)@ + valid_states_text(registry@),
{
    let mut out = chars_of(md.as_str());
    push_str(&mut out, "## Valid Task States\n\n");
    let tasks = registry.all_tasks();
    let ghost others = other_task_names(registry@, registry@.len() as int);
    let ghost start = out@;
    let mut i: usize = 0;
    while i < tasks.len()
        invariant
            i <= tasks.len(),
            tasks@.len() == 1 + others.len(),
            others == other_task_names(registry@, registry@.len() as int),
            tasks@[0]@ == TaskKind::Gitversion,
            forall|k: int|
                0 <= k < others.len() ==> (#[trigger] tasks@[k + 1])@ == TaskKind::Default(
                    others[k],
                ),
            i == 0 ==> out@ == start,
            i > 0 ==> out@ == start + states_block(
                tool_name(),
                states_of(registry@, tool_name()),
            ) + states_blocks(registry@, others, i - 1),
        decreases tasks.len() - i,
    {
        let name = tasks[i].to_text();
        proof {
            if i > 0 {
                assert(tasks@[(i - 1) + 1]@ == TaskKind::Default(others[i - 1]));
                assert(name@ == others[i - 1]);
            } else {
                assert(name@ == tool_name());
            }
        }
        let states = registry.states_for(name.as_str());
        let shown = format_task_states(&tasks[i], states);
        push_str(&mut out, "### ");
        push_str(&mut out, name.as_str());
        push_str(&mut out, "\n\n");
        push_str(&mut out, shown.as_str());
        push_str(&mut out, "\n\n");
        proof {
            if i > 0 {
                assert(out@ == start + states_block(
                    tool_name(),
                    states_of(registry@, tool_name()),
                ) + states_blocks(registry@, others, i as int));
            } else {
                assert(states_blocks(registry@, others, 0) == Seq::<char>::empty());
                assert(out@ == start + states_block(
                    tool_name(),
                    states_of(registry@, tool_name()),
                ) + states_blocks(registry@, others, 0));
            }
        }
        i = i + 1;
    }
    assert(out@ == old(md)@ + valid_states_text(registry@));
    *md = string_of(&out);
}

/// The versions of a list of occurrences, one for each.
pub open spec fn version_list(list: Seq<TaskImplementation>) -> Seq<Seq<char>> {
    Seq::new(list.len(), |i: int| list[i].version@)
}

/// The repositories of the occurrences of a version among the first `n`,
/// in order.
pub open spec fn repos_with(list: Seq<TaskImplementation>, version: Seq<char>, n: int) -> Seq<
    Seq<char>,
>
    decreases n,
{
    if n <= 0 {
        Seq::<Seq<char>>::empty()
    } else {
        let before = repos_with(list, version, n - 1);
        if list[n - 1].version@ == version {
            before.push(list[n - 1].repo_name@)
        } else {
            before
        }
    }
}

/// The files of the occurrences of a version in a repository among the
/// first `n`, in order.
pub open spec fn paths_with(
    list: Seq<TaskImplementation>,
    version: Seq<char>,
    repo: Seq<char>,
    n: int,
) -> Seq<Seq<char>>
    decreases n,
{
    if n <= 0 {
        Seq::<Seq<char>>::empty()
    } else {
        let before = paths_with(list, version, repo, n - 1);
        if list[n - 1].version@ == version && list[n - 1].repo_name@ == repo {
            before.push(list[n - 1].file_path@)
        } else {
            before
        }
    }
}

/// One line for each of the first `n` files.
pub open spec fn path_lines(paths: Seq<Seq<char>>, n: int) -> Seq<char>
    decreases n,
{
    if n <= 0 {
        Seq::<char>::empty()
    } else {
        path_lines(paths, n - 1) + "  - "@ + paths[n - 1] + "\n"@
    }
}

/// What a report shows of a repository and the files in which it uses a
/// task: the one file beside the name, or their number beside the name
/// and a line for each.
pub open spec fn repo_entry(repo: Seq<char>, paths: Seq<Seq<char>>) -> Seq<char> {
    if paths.len() > 1 {
        "- "@ + repo + " ("@ + decimal(paths.len()) + " occurrences)\n"@ + path_lines(
            paths,
            paths.len() as int,
        )
    } else if paths.len() == 1 {
        "- "@ + repo + ": "@ + paths[0] + "\n"@
    } else {
        Seq::<char>::empty()
    }
}

/// The entries of the first `n` of the repositories for a version.
pub open spec fn repo_entries(
    list: Seq<TaskImplementation>,
    version: Seq<char>,
    repos: Seq<Seq<char>>,
    n: int,
) -> Seq<char>
    decreases n,
{
    if n <= 0 {
        Seq::<char>::empty()
    } else {
        repo_entries(list, version, repos, n - 1) + repo_entry(
            repos[n - 1],
            paths_with(list, version, repos[n - 1], list.len() as int),
        )
    }
}

/// What a report shows of a version of a task: the repositories that use
/// it, in the order in which they first do.
pub open spec fn version_block(list: Seq<TaskImplementation>, version: Seq<char>) -> Seq<char> {
    let repos = distinct(repos_with(list, version, list.len() as int));
    "#### Version "@ + version + "\n\n"@ + repo_entries(list, version, repos, repos.len() as int)
        + "\n"@
}

/// The blocks of the first `n` of the versions.
pub open spec fn version_blocks(list: Seq<TaskImplementation>, versions: Seq<Seq<char>>, n: int) -> Seq<
    char,
>
    decreases n,
{
    if n <= 0 {
        Seq::<char>::empty()
    } else {
        version_blocks(list, versions, n - 1) + version_block(list, versions[n - 1])
    }
}

/// What a report shows of a task: its versions in the order of texts.
pub open spec fn task_details(task: Seq<char>, list: Seq<TaskImplementation>) -> Seq<char> {
    let versions = sorted_set(version_list(list));
    "### "@ + task + "\n\n"@ + version_blocks(list, versions, versions.len() as int)
}

/// The details of the first `n` tasks.
pub open spec fn details_blocks(table: Table<Vec<TaskImplementation>>, n: int) -> Seq<char>
    decreases n,
{
    if n <= 0 {
        Seq::<char>::empty()
    } else {
        details_blocks(table, n - 1) + task_details(table.key_at(n - 1), table.value_at(n - 1)@)
    }
}

/// The section of a report on where each task is used in which version.
pub open spec fn details_text(issues: TaskIssues) -> Seq<char> {
    "## Implementation Details\n\n"@ + details_blocks(
        issues.all_implementations,
        issues.all_implementations.count(),
    )
}

fn push_path_lines(out: &mut Vec<char>, paths: &Vec<String>)
    ensures
        final(out)@ == old(out)@ + path_lines(string_texts(paths@), paths@.len() as int),
{
    let mut i: usize = 0;
    assert(out@ == old(out)@ + path_lines(string_texts(paths@), 0));
    while i < paths.len()
        invariant
            i <= paths.len(),
            out@ == old(out)@ + path_lines(string_texts(paths@), i as int),
        decreases paths.len() - i,
    {
        push_str(out, "  - ");
        push_str(out, paths[i].as_str());
        push_str(out, "\n");
        assert(string_texts(paths@)[i as int] == paths@[i as int]@);
        assert(out@ == old(out)@ + path_lines(string_texts(paths@), i + 1));
        i = i + 1;
    }
}

fn push_repo_entry(out: &mut Vec<char>, repo: &str, paths: &Vec<String>)
    ensures
        final(out)@ == old(out)@ + repo_entry(repo@, string_texts(paths@)),
{
    if paths.len() > 1 {
        push_str(out, "- ");
        push_str(out, repo);
        push_str(out, " (");
        push_decimal(out, paths.len() as u128);
        push_str(out, " occurrences)\n");
        push_path_lines(out, paths);
        assert(out@ == old(out)@ + repo_entry(repo@, string_texts(paths@)));
    } else if paths.len() == 1 {
        push_str(out, "- ");
        push_str(out, repo);
        push_str(out, ": ");
        push_str(out, paths[0].as_str());
        push_str(out, "\n");
        assert(string_texts(paths@)[0] == paths@[0]@);
        assert(out@ == old(out)@ + repo_entry(repo@, string_texts(paths@)));
    } else {
        assert(out@ == old(out)@ + repo_entry(repo@, string_texts(paths@)));
    }
}

/// The repositories of the occurrences of a version, in order.
fn repos_of_version(list: &Vec<TaskImplementation>, version: &str) -> (r: Vec<String>)
    ensures
        string_texts(r@) == repos_with(list@, version@, list@.len() as int),
{
    let mut out: Vec<String> = Vec::new();
    let mut i: usize = 0;
    while i < list.len()
        invariant
            i <= list.len(),
            string_texts(out@) == repos_with(list@, version@, i as int),
        decreases list.len() - i,
    {
        if same_str(list[i].version.as_str(), version) {
            let ghost before = string_texts(out@);
            let name = list[i].repo_name.clone();
            out.push(name);
            assert(string_texts(out@) == before.push(name@));
        }
        i = i + 1;
    }
    out
}

/// The files of the occurrences of a version in a repository, in order.
fn paths_of_repo(list: &Vec<TaskImplementation>, version: &str, repo: &str) -> (r: Vec<String>)
    ensures
        string_texts(r@) == paths_with(list@, version@, repo@, list@.len() as int),
{
    let mut out: Vec<String> = Vec::new();
    let mut i: usize = 0;
    while i < list.len()
        invariant
            i <= list.len(),
            string_texts(out@) == paths_with(list@, version@, repo@, i as int),
        decreases list.len() - i,
    {
        if same_str(list[i].version.as_str(), version) && same_str(
            list[i].repo_name.as_str(),
            repo,
        ) {
            let ghost before = string_texts(out@);
            let path = list[i].file_path.clone();
            out.push(path);
            assert(string_texts(out@) == before.push(path@));
        }
        i = i + 1;
    }
    out
}

fn push_version_block(out: &mut Vec<char>, list: &Vec<TaskImplementation>, version: &str)
    ensures
        final(out)@ == old(out)@ + version_block(list@, version@),
{
    push_str(out, "#### Version ");
    push_str(out, version);
    push_str(out, "\n\n");
    let ghost start = out@;
    let repos = distinct_names(&repos_of_version(list, version));
    let ghost names = string_texts(repos@);
    let mut i: usize = 0;
    assert(out@ == start + repo_entries(list@, version@, names, 0));
    while i < repos.len()
        invariant
            i <= repos.len(),
            names == string_texts(repos@),
            out@ == start + repo_entries(list@, version@, names, i as int),
        decreases repos.len() - i,
    {
        assert(names[i as int] == repos@[i as int]@);
        let paths = paths_of_repo(list, version, repos[i].as_str());
        push_repo_entry(out, repos[i].as_str(), &paths);
        assert(out@ == start + repo_entries(list@, version@, names, i + 1));
        i = i + 1;
    }
    push_str(out, "\n");
    assert(out@ == old(out)@ + version_block(list@, version@));
}

fn push_task_details(out: &mut Vec<char>, task: &str, list: &Vec<TaskImplementation>)
    ensures
        final(out)@ == old(out)@ + task_details(task@, list@),
{
    push_str(out, "### ");
    push_str(out, task);
    push_str(out, "\n\n");
    let ghost start = out@;
    let mut all: Vec<String> = Vec::new();
    let mut k: usize = 0;
    while k < list.len()
        invariant
            k <= list.len(),
            string_texts(all@) == version_list(list@).take(k as int),
        decreases list.len() - k,
    {
        let ghost before = string_texts(all@);
        let v = list[k].version.clone();
        all.push(v);
        assert(string_texts(all@) == before.push(v@));
        assert(version_list(list@).take(k + 1) == version_list(list@).take(k as int).push(v@));
        k = k + 1;
    }
    assert(version_list(list@).take(list.len() as int) == version_list(list@));
    let versions = sorted_distinct(&all);
    let ghost names = string_texts(versions@);
    let mut i: usize = 0;
    assert(out@ == start + version_blocks(list@, names, 0));
    while i < versions.len()
        invariant
            i <= versions.len(),
            names == string_texts(versions@),
            out@ == start + version_blocks(list@, names, i as int),
        decreases versions.len() - i,
    {
        assert(names[i as int] == versions@[i as int]@);
        push_version_block(out, list, versions[i].as_str());
        assert(out@ == start + version_blocks(list@, names, i + 1));
        i = i + 1;
    }
    assert(out@ == old(out)@ + task_details(task@, list@));
}

/// Appends the section on where each task is used in which version.
pub fn generate_implementation_details(md: &mut String, issues: &TaskIssues)
    ensures
        final(md)@ == old(md)@ + details_text(*issues),
{
    let mut out = chars_of(md.as_str());
    push_str(&mut out, "## Implementation Details\n\n");
    let ghost start = out@;
    let table = &issues.all_implementations;
    let mut i: usize = 0;
    assert(out@ == start + details_blocks(*table, 0));
    while i < table.entries.len()
        invariant
            i <= table.entries.len(),
            table == &issues.all_implementations,
            out@ == start + details_blocks(*table, i as int),
        decreases table.entries.len() - i,
    {
        push_task_details(&mut out, table.entries[i].0.as_str(), &table.entries[i].1);
        assert(out@ == start + details_blocks(*table, i + 1));
        i = i + 1;
    }
    assert(out@ == old(md)@ + details_text(*issues));
    *md = string_of(&out);
}

/// One line for each of the first `n` files that has a path relative to
/// its repository.
pub open spec fn relative_lines(files: Seq<Usage>, n: int) -> Seq<char>
    decreases n,
{
    if n <= 0 {
        Seq::<char>::empty()
    } else {
        let before = relative_lines(files, n - 1);
        match files[n - 1].relative_path {
            Some(p) => before + "  - "@ + p + "\n"@,
            None => before,
        }
    }
}

/// What a report shows of a repository and the files in which it uses a
/// task in a version: the one file beside the short name of the
/// repository, or the number of files and a line for each; a file is
/// shown relative to the repository where it can be.
pub open spec fn usage_entry(repo: Seq<char>, files: Seq<Usage>) -> Seq<char> {
    if files.len() > 1 {
        "- "@ + short_name(repo) + " ("@ + decimal(files.len()) + " occurrences)\n"@
            + relative_lines(files, files.len() as int)
    } else if files.len() == 1 {
        "- "@ + short_name(repo) + ": "@ + (match files[0].relative_path {
            Some(p) => p,
            None => files[0].path,
        }) + "\n"@
    } else {
        Seq::<char>::empty()
    }
}

/// The entries of the first `n` of the repositories.
pub open spec fn usage_entries(
    records: Seq<Usage>,
    task: Seq<char>,
    version: Seq<char>,
    repos: Seq<Seq<char>>,
    n: int,
) -> Seq<char>
    decreases n,
{
    if n <= 0 {
        Seq::<char>::empty()
    } else {
        usage_entries(records, task, version, repos, n - 1) + usage_entry(
            repos[n - 1],
            records_of(records, task, version, repos[n - 1], records.len() as int),
        )
    }
}

/// What a report shows of a version of a task: the repositories that use
/// it, in the order of texts.
pub open spec fn usage_version_block(records: Seq<Usage>, task: Seq<char>, version: Seq<char>) -> Seq<
    char,
> {
    let repos = sorted_set(repo_keys(records, task, version, records.len() as int));
    "#### Version "@ + version + "\n\n"@ + usage_entries(
        records,
        task,
        version,
        repos,
        repos.len() as int,
    ) + "\n"@
}

/// The blocks of the first `n` of the versions of a task.
pub open spec fn usage_version_blocks(
    records: Seq<Usage>,
    task: Seq<char>,
    versions: Seq<Seq<char>>,
    n: int,
) -> Seq<char>
    decreases n,
{
    if n <= 0 {
        Seq::<char>::empty()
    } else {
        usage_version_blocks(records, task, versions, n - 1) + usage_version_block(
            records,
            task,
            versions[n - 1],
        )
    }
}

/// What a report shows of the use of a task: its versions in the order of
/// texts.
pub open spec fn usage_task_block(records: Seq<Usage>, task: Seq<char>) -> Seq<char> {
    let versions = sorted_set(version_keys(records, task, records.len() as int));
    "### "@ + task + "\n\n"@ + usage_version_blocks(records, task, versions, versions.len() as int)
}

/// The blocks of the first `n` of the tasks.
pub open spec fn usage_task_blocks(records: Seq<Usage>, tasks: Seq<Seq<char>>, n: int) -> Seq<char>
    decreases n,
{
    if n <= 0 {
        Seq::<char>::empty()
    } else {
        usage_task_blocks(records, tasks, n - 1) + usage_task_block(records, tasks[n - 1])
    }
}

/// The section of a report on which tasks are used where: tasks,
/// versions and repositories each in the order of texts.
pub open spec fn usage_text(records: Seq<Usage>) -> Seq<char> {
    let tasks = sorted_set(task_keys(records));
    "## Task Usage Analysis\n\n"@ + usage_task_blocks(records, tasks, tasks.len() as int)
}

fn push_relative_lines(out: &mut Vec<char>, files: &Vec<UsageRecord>)
    ensures
        final(out)@ == old(out)@ + relative_lines(usages(files@), files@.len() as int),
{
    let mut i: usize = 0;
    assert(out@ == old(out)@ + relative_lines(usages(files@), 0));
    while i < files.len()
        invariant
            i <= files.len(),
            out@ == old(out)@ + relative_lines(usages(files@), i as int),
        decreases files.len() - i,
    {
        assert(usages(files@)[i as int] == files@[i as int]@);
        match &files[i].relative_path {
            Some(p) => {
                push_str(out, "  - ");
                push_str(out, p.as_str());
                push_str(out, "\n");
            },
            None => {},
        }
        assert(out@ == old(out)@ + relative_lines(usages(files@), i + 1));
        i = i + 1;
    }
}

fn push_usage_entry(out: &mut Vec<char>, repo: &str, files: &Vec<UsageRecord>)
    ensures
        final(out)@ == old(out)@ + usage_entry(repo@, usages(files@)),
{
    if files.len() > 1 {
        let name = repo_short_name(repo);
        push_str(out, "- ");
        push_str(out, name.as_str());
        push_str(out, " (");
        push_decimal(out, files.len() as u128);
        push_str(out, " occurrences)\n");
        push_relative_lines(out, files);
        assert(out@ == old(out)@ + usage_entry(repo@, usages(files@)));
    } else if files.len() == 1 {
        let name = repo_short_name(repo);
        assert(usages(files@)[0] == files@[0]@);
        push_str(out, "- ");
        push_str(out, name.as_str());
        push_str(out, ": ");
        match &files[0].relative_path {
            Some(p) => {
                push_str(out, p.as_str());
            },
            None => {
                push_str(out, files[0].path.as_str());
            },
        }
        push_str(out, "\n");
        assert(out@ == old(out)@ + usage_entry(repo@, usages(files@)));
    } else {
        assert(out@ == old(out)@ + usage_entry(repo@, usages(files@)));
    }
}

fn push_usage_version_block(
    out: &mut Vec<char>,
    records: &Vec<UsageRecord>,
    task: &str,
    version: &str,
)
    ensures
        final(out)@ == old(out)@ + usage_version_block(usages(records@), task@, version@),
{
    push_str(out, "#### Version ");
    push_str(out, version);
    push_str(out, "\n\n");
    let ghost start = out@;
    let ghost all = usages(records@);
    let repos = usage_repos(records, task, version);
    let ghost names = string_texts(repos@);
    let mut i: usize = 0;
    assert(out@ == start + usage_entries(all, task@, version@, names, 0));
    while i < repos.len()
        invariant
            i <= repos.len(),
            all == usages(records@),
            all.len() == records@.len(),
            names == string_texts(repos@),
            out@ == start + usage_entries(all, task@, version@, names, i as int),
        decreases repos.len() - i,
    {
        assert(names[i as int] == repos@[i as int]@);
        let files = usage_files(records, task, version, repos[i].as_str());
        push_usage_entry(out, repos[i].as_str(), &files);
        assert(out@ == start + usage_entries(all, task@, version@, names, i + 1));
        i = i + 1;
    }
    push_str(out, "\n");
    assert(out@ == old(out)@ + usage_version_block(all, task@, version@));
}

fn push_usage_task_block(out: &mut Vec<char>, records: &Vec<UsageRecord>, task: &str)
    ensures
        final(out)@ == old(out)@ + usage_task_block(usages(records@), task@),
{
    push_str(out, "### ");
    push_str(out, task);
    push_str(out, "\n\n");
    let ghost start = out@;
    let ghost all = usages(records@);
    let versions = usage_versions(records, task);
    let ghost names = string_texts(versions@);
    let mut i: usize = 0;
    assert(out@ == start + usage_version_blocks(all, task@, names, 0));
    while i < versions.len()
        invariant
            i <= versions.len(),
            all == usages(records@),
            all.len() == records@.len(),
            names == string_texts(versions@),
            out@ == start + usage_version_blocks(all, task@, names, i as int),
        decreases versions.len() - i,
    {
        assert(names[i as int] == versions@[i as int]@);
        push_usage_version_block(out, records, task, versions[i].as_str());
        assert(out@ == start + usage_version_blocks(all, task@, names, i + 1));
        i = i + 1;
    }
    assert(out@ == old(out)@ + usage_task_block(all, task@));
}

/// Appends the section on which tasks are used where.
pub fn generate_task_usage_section(md: &mut String, records: &Vec<UsageRecord>)
    ensures
        final(md)@ == old(md)@ + usage_text(usages(records@)),
{
    let mut out = chars_of(md.as_str());
    push_str(&mut out, "## Task Usage Analysis\n\n");
    let ghost start = out@;
    let ghost all = usages(records@);
    let tasks = usage_tasks(records);
    let ghost names = string_texts(tasks@);
    let mut i: usize = 0;
    assert(out@ == start + usage_task_blocks(all, names, 0));
    while i < tasks.len()
        invariant
            i <= tasks.len(),
            all == usages(records@),
            names == string_texts(tasks@),
            out@ == start + usage_task_blocks(all, names, i as int),
        decreases tasks.len() - i,
    {
        assert(names[i as int] == tasks@[i as int]@);
        push_usage_task_block(&mut out, records, tasks[i].as_str());
        assert(out@ == start + usage_task_blocks(all, names, i + 1));
        i = i + 1;
    }
    assert(out@ == old(md)@ + usage_text(all));
    *md = string_of(&out);
}

/// A repository that could not be brought up to date, and why.
#[derive(Debug, Clone, PartialEq)]
pub struct NotProcessed {
    /// The short name of the repository.
    pub repo: String,
    /// Why its synchronization failed.
    pub error: SyncError,
}

/// The mathematical form of a list of repositories that were not
/// processed: the name and the reason of each.
pub open spec fn not_processed_views(v: Seq<NotProcessed>) -> Seq<(Seq<char>, SyncFault)> {
    Seq::new(v.len(), |i: int| (v[i].repo@, v[i].error@))
}

/// The failures among the first `n` outcomes of a batch, in order.
pub open spec fn failures_among<T>(outcomes: Seq<PerRepoOutcome<T, SyncError>>, n: int) -> Seq<
    (Seq<char>, SyncFault),
>
    decreases n,
{
    if n <= 0 {
        Seq::<(Seq<char>, SyncFault)>::empty()
    } else {
        let before = failures_among(outcomes, n - 1);
        match outcomes[n - 1].result {
            Ok(_) => before,
            Err(e) => before.push((outcomes[n - 1].repo@, e@)),
        }
    }
}

/// The repositories of a batch whose unit failed, each with its error, in
/// the order of the outcomes. None of them is left out.
pub fn not_processed<T>(outcomes: &Vec<PerRepoOutcome<T, SyncError>>) -> (r: Vec<NotProcessed>)
    ensures
        not_processed_views(r@) == failures_among(outcomes@, outcomes@.len() as int),
{
    let mut out: Vec<NotProcessed> = Vec::new();
    let mut i: usize = 0;
    while i < outcomes.len()
        invariant
            i <= outcomes.len(),
            not_processed_views(out@) == failures_among(outcomes@, i as int),
        decreases outcomes.len() - i,
    {
        match &outcomes[i].result {
            Ok(_) => {},
            Err(e) => {
                let item = NotProcessed { repo: outcomes[i].repo.clone(), error: copy_error(e) };
                let ghost before = not_processed_views(out@);
                out.push(item);
                assert(not_processed_views(out@) == before.push((item.repo@, item.error@)));
            },
        }
        i = i + 1;
    }
    out
}

/// One line for each of the first `n` repositories that were not
/// processed: the name and the reason.
pub open spec fn not_processed_lines(failed: Seq<NotProcessed>, n: int) -> Seq<char>
    decreases n,
{
    if n <= 0 {
        Seq::<char>::empty()
    } else {
        not_processed_lines(failed, n - 1) + "- "@ + failed[n - 1].repo@ + ": not processed ("@
            + fault_text(failed[n - 1].error@) + ")\n"@
    }
}

/// The section of a report on the repositories that were not processed:
/// nothing where every repository was.
pub open spec fn not_processed_text(failed: Seq<NotProcessed>) -> Seq<char> {
    if failed.len() == 0 {
        Seq::<char>::empty()
    } else {
        "## Repositories Not Processed\n\n"@ + not_processed_lines(failed, failed.len() as int)
            + "\n"@
    }
}

/// Appends the section on the repositories that were not processed, so
/// that none of them is missing from the report.
pub fn generate_not_processed_section(md: &mut String, failed: &Vec<NotProcessed>)
    ensures
        final(md)@ == old(md)@ + not_processed_text(failed@),
{
    if failed.len() == 0 {
        assert(md@ + Seq::<char>::empty() == md@);
        return ;
    }
    let mut out = chars_of(md.as_str());
    push_str(&mut out, "## Repositories Not Processed\n\n");
    let ghost start = out@;
    let mut i: usize = 0;
    assert(out@ == start + not_processed_lines(failed@, 0));
    while i < failed.len()
        invariant
            i <= failed.len(),
            out@ == start + not_processed_lines(failed@, i as int),
        decreases failed.len() - i,
    {
        let reason = error_text(&failed[i].error);
        push_str(&mut out, "- ");
        push_str(&mut out, failed[i].repo.as_str());
        push_str(&mut out, ": not processed (");
        push_str(&mut out, reason.as_str());
        push_str(&mut out, ")\n");
        assert(out@ == start + not_processed_lines(failed@, i + 1));
        i = i + 1;
    }
    push_str(&mut out, "\n");
    assert(out@ == old(md)@ + not_processed_text(failed@));
    *md = string_of(&out);
}

/// The whole report written at the given moment: head, summary, the
/// repositories that were not processed, approved states, issues, details
/// and usage.
pub open spec fn report_text(
    moment: Seq<char>,
    issues: TaskIssues,
    registry: Seq<PolicyView>,
    records: Seq<Usage>,
    failed: Seq<NotProcessed>,
) -> Seq<char> {
    header_text(moment) + summary_text(issues) + not_processed_text(failed) + valid_states_text(
        registry,
    ) + issues_text(issues) + details_text(issues) + usage_text(records)
}

/// Writes the report of an audit. The findings are those of the
/// repositories that could be processed; the others are listed as not
/// processed.
pub fn generate_markdown_report(
    records: &Vec<UsageRecord>,
    registry: &Registry,
    issues: &TaskIssues,
    failed: &Vec<NotProcessed>,
) -> (r: String)
    ensures
        exists|moment: Seq<char>|
            r@ == report_text(moment, *issues, registry@, usages(records@), failed@),
{
    let mut md = String::new();
    generate_header(&mut md);
    let ghost moment = choose|moment: Seq<char>| md@ == Seq::<char>::empty() + header_text(moment);
    assert(md@ == header_text(moment));
    generate_summary_section(&mut md, issues);
    generate_not_processed_section(&mut md, failed);
    generate_valid_states_section(&mut md, registry);
    generate_issues_section(&mut md, issues);
    generate_implementation_details(&mut md, issues);
    generate_task_usage_section(&mut md, records);
    assert(md@ == report_text(moment, *issues, registry@, usages(records@), failed@));
    md
}

} // verus!
