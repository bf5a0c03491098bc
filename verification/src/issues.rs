//! What an audit found: every occurrence of every task, the tasks without
//! approved states, and the occurrences that are not compliant.

use crate::compliance::{
    classify_triple, classify_version, collect_triple, is_tool_step, names_tool_step, states_of,
    tool_name, tool_repos, triple_status, triple_upto, version_status, Compliance, PolicyView,
    Registry,
};
use crate::extract::{execute_task, invocation_views, setup_task, Invocation, TaskInvocation};
use crate::table::{
    all_filled, keys_under, list_of, list_under, nested_filled, nested_wf, push_to, push_under,
    Table,
};
use crate::task::{occurrences, state_views, Occurrence, TaskImplementation};
use crate::text::{holds_text, same_str, string_texts};
use vstd::prelude::*;

verus! {

/// The findings of an audit.
#[derive(Debug)]
pub struct TaskIssues {
    /// The tasks, outside the versioning tool, that have no approved state.
    pub missing_states: Vec<String>,
    /// By task and repository, the occurrences that are not compliant:
    /// the task has approved states, and none approves the occurrence.
    pub invalid_states: Table<Table<Vec<TaskImplementation>>>,
    /// By task, every occurrence.
    pub all_implementations: Table<Vec<TaskImplementation>>,
}

/// The occurrence that an invocation is.
pub open spec fn occurrence_of(x: Invocation) -> Occurrence {
    Occurrence { repo: x.repo, version: x.version, file: x.file }
}

/// The occurrences of a task among the first `n` invocations, in order.
pub open spec fn implementations_of(invs: Seq<Invocation>, task: Seq<char>, n: int) -> Seq<
    Occurrence,
>
    decreases n,
{
    if n <= 0 {
        Seq::<Occurrence>::empty()
    } else {
        let before = implementations_of(invs, task, n - 1);
        if invs[n - 1].task == task {
            before.push(occurrence_of(invs[n - 1]))
        } else {
            before
        }
    }
}

/// The tasks of the first `n` invocations, each once, in the order in
/// which they first occur.
pub open spec fn tasks_seen(invs: Seq<Invocation>, n: int) -> Seq<Seq<char>>
    decreases n,
{
    if n <= 0 {
        Seq::<Seq<char>>::empty()
    } else {
        let before = tasks_seen(invs, n - 1);
        if before.contains(invs[n - 1].task) {
            before
        } else {
            before.push(invs[n - 1].task)
        }
    }
}

/// The tasks outside the versioning tool that occur among the first `n`
/// invocations and have no approved state, each once, in the order in
/// which they first occur.
pub open spec fn tasks_without_policy(invs: Seq<Invocation>, registry: Seq<PolicyView>, n: int) -> Seq<
    Seq<char>,
>
    decreases n,
{
    if n <= 0 {
        Seq::<Seq<char>>::empty()
    } else {
        let before = tasks_without_policy(invs, registry, n - 1);
        let task = invs[n - 1].task;
        if !is_tool_step(task) && states_of(registry, task).len() == 0 && !before.contains(task) {
            before.push(task)
        } else {
            before
        }
    }
}

/// Whether a task occurs among the first `n` invocations.
pub open spec fn occurs(invs: Seq<Invocation>, task: Seq<char>, n: int) -> bool {
    exists|i: int| 0 <= i < n && i < invs.len() && (#[trigger] invs[i]).task == task
}

/// Whether an invocation of a task outside the versioning tool is
/// rejected: its task has approved states, and none of them approves its
/// version. An invocation of a task without any state is not rejected;
/// its task is recorded as missing.
pub open spec fn is_rejected(x: Invocation, registry: Seq<PolicyView>) -> bool {
    !is_tool_step(x.task) && version_status(states_of(registry, x.task), x.version)
        == Compliance::NonCompliant
}

/// The rejected occurrences of a task in a repository among the first `n`
/// invocations, in order.
pub open spec fn rejected_of(
    invs: Seq<Invocation>,
    registry: Seq<PolicyView>,
    task: Seq<char>,
    repo: Seq<char>,
    n: int,
) -> Seq<Occurrence>
    decreases n,
{
    if n <= 0 {
        Seq::<Occurrence>::empty()
    } else {
        let before = rejected_of(invs, registry, task, repo, n - 1);
        let x = invs[n - 1];
        if x.task == task && x.repo == repo && is_rejected(x, registry) {
            before.push(occurrence_of(x))
        } else {
            before
        }
    }
}

/// Whether a task outside the versioning tool occurs among the first `n`
/// invocations and has no approved state.
pub open spec fn lacks_policy(
    invs: Seq<Invocation>,
    registry: Seq<PolicyView>,
    task: Seq<char>,
    n: int,
) -> bool {
    !is_tool_step(task) && occurs(invs, task, n) && states_of(registry, task).len() == 0
}

/// The record of a repository whose use of the versioning tool no state
/// approves: its setup version, or `?` without one, and the file of the
/// setup step, or no file.
pub open spec fn triple_record(invs: Seq<Invocation>, repo: Seq<char>) -> Occurrence {
    let t = triple_upto(invs, repo, invs.len() as int);
    Occurrence {
        repo,
        version: match t.setup {
            Some(v) => v,
            None => "?"@,
        },
        file: match t.file {
            Some(f) => f,
            None => Seq::<char>::empty(),
        },
    }
}

/// Whether the use that a repository makes of the versioning tool is
/// rejected.
pub open spec fn triple_rejected(
    invs: Seq<Invocation>,
    registry: Seq<PolicyView>,
    repo: Seq<char>,
) -> bool {
    let t = triple_upto(invs, repo, invs.len() as int);
    triple_status(states_of(registry, tool_name()), t.setup, t.execute, t.spec)
        != Compliance::Compliant
}

/// What is recorded under a step of the versioning tool for a repository
/// once the first `k` of the repositories are judged: the record of the
/// repository, where the step occurs at all, the repository is among
/// those judged, and its use of the tool is rejected.
pub open spec fn tool_rejected(
    invs: Seq<Invocation>,
    registry: Seq<PolicyView>,
    task: Seq<char>,
    repo: Seq<char>,
    k: int,
) -> Seq<Occurrence> {
    let repos = tool_repos(invs, invs.len() as int);
    if occurs(invs, task, invs.len() as int) && repos.take(k).contains(repo) && triple_rejected(
        invs,
        registry,
        repo,
    ) {
        seq![triple_record(invs, repo)]
    } else {
        Seq::<Occurrence>::empty()
    }
}

/// The tasks outside the versioning tool with a rejected occurrence among
/// the first `n` invocations, each once, in the order in which they first
/// have one.
pub open spec fn rejected_tasks(invs: Seq<Invocation>, registry: Seq<PolicyView>, n: int) -> Seq<
    Seq<char>,
>
    decreases n,
{
    if n <= 0 {
        Seq::<Seq<char>>::empty()
    } else {
        let before = rejected_tasks(invs, registry, n - 1);
        let x = invs[n - 1];
        if is_rejected(x, registry) && !before.contains(x.task) {
            before.push(x.task)
        } else {
            before
        }
    }
}

/// The repositories with a rejected occurrence of a task among the first
/// `n` invocations, each once, in the order in which they first have one.
pub open spec fn rejected_repos(
    invs: Seq<Invocation>,
    registry: Seq<PolicyView>,
    task: Seq<char>,
    n: int,
) -> Seq<Seq<char>>
    decreases n,
{
    if n <= 0 {
        Seq::<Seq<char>>::empty()
    } else {
        let before = rejected_repos(invs, registry, task, n - 1);
        let x = invs[n - 1];
        if x.task == task && is_rejected(x, registry) && !before.contains(x.repo) {
            before.push(x.repo)
        } else {
            before
        }
    }
}

/// Those of the first `k` repositories that use the versioning tool
/// whose use of it is rejected, in order.
pub open spec fn rejected_tool_repos(invs: Seq<Invocation>, registry: Seq<PolicyView>, k: int) -> Seq<
    Seq<char>,
>
    decreases k,
{
    if k <= 0 {
        Seq::<Seq<char>>::empty()
    } else {
        let before = rejected_tool_repos(invs, registry, k - 1);
        let repo = tool_repos(invs, invs.len() as int)[k - 1];
        if triple_rejected(invs, registry, repo) {
            before.push(repo)
        } else {
            before
        }
    }
}

/// The steps of the versioning tool under which a rejected use is
/// recorded once the first `k` repositories are judged: the steps that
/// occur, setup before execute, where a use is rejected at all.
pub open spec fn recorded_steps(invs: Seq<Invocation>, registry: Seq<PolicyView>, k: int) -> Seq<
    Seq<char>,
> {
    let n = invs.len() as int;
    if rejected_tool_repos(invs, registry, k).len() == 0 {
        Seq::<Seq<char>>::empty()
    } else {
        (if occurs(invs, setup_task(), n) {
            seq![setup_task()]
        } else {
            Seq::<Seq<char>>::empty()
        }) + (if occurs(invs, execute_task(), n) {
            seq![execute_task()]
        } else {
            Seq::<Seq<char>>::empty()
        })
    }
}

/// The tasks that have invalid occurrences, in the order in which they
/// are recorded: the tasks outside the versioning tool, then its steps.
pub open spec fn invalid_tasks(invs: Seq<Invocation>, registry: Seq<PolicyView>) -> Seq<Seq<char>> {
    rejected_tasks(invs, registry, invs.len() as int) + recorded_steps(
        invs,
        registry,
        tool_repos(invs, invs.len() as int).len() as int,
    )
}

/// The repositories recorded under a task with invalid occurrences, in
/// order.
pub open spec fn invalid_repos(invs: Seq<Invocation>, registry: Seq<PolicyView>, task: Seq<char>) -> Seq<
    Seq<char>,
> {
    if is_tool_step(task) {
        if occurs(invs, task, invs.len() as int) {
            rejected_tool_repos(
                invs,
                registry,
                tool_repos(invs, invs.len() as int).len() as int,
            )
        } else {
            Seq::<Seq<char>>::empty()
        }
    } else {
        rejected_repos(invs, registry, task, invs.len() as int)
    }
}

/// The occurrences recorded as invalid for a task in a repository.
pub open spec fn invalid_of(
    invs: Seq<Invocation>,
    registry: Seq<PolicyView>,
    task: Seq<char>,
    repo: Seq<char>,
) -> Seq<Occurrence> {
    if is_tool_step(task) {
        tool_rejected(
            invs,
            registry,
            task,
            repo,
            tool_repos(invs, invs.len() as int).len() as int,
        )
    } else {
        rejected_of(invs, registry, task, repo, invs.len() as int)
    }
}

impl TaskIssues {
    /// No name stands twice in any of the three collections, and no
    /// entry is empty.
    pub open spec fn wf(&self) -> bool {
        &&& string_texts(self.missing_states@).no_duplicates()
        &&& nested_wf(self.invalid_states)
        &&& nested_filled(self.invalid_states)
        &&& self.all_implementations.wf()
        &&& all_filled(self.all_implementations)
    }

    /// The occurrences recorded for a task.
    pub open spec fn implementations(&self, task: Seq<char>) -> Seq<Occurrence> {
        occurrences(list_of(self.all_implementations, task))
    }

    /// The occurrences recorded as invalid for a task in a repository.
    pub open spec fn rejected(&self, task: Seq<char>, repo: Seq<char>) -> Seq<Occurrence> {
        occurrences(list_under(self.invalid_states, task, repo))
    }

    /// Whether a task is recorded as being without approved states.
    pub open spec fn is_missing(&self, task: Seq<char>) -> bool {
        string_texts(self.missing_states@).contains(task)
    }

    /// Findings that hold nothing.
    pub fn new() -> (r: Self)
        ensures
            r.wf(),
            r.missing_states@.len() == 0,
            r.invalid_states.count() == 0,
            r.all_implementations.count() == 0,
    {
        TaskIssues {
            missing_states: Vec::new(),
            invalid_states: Table::new(),
            all_implementations: Table::new(),
        }
    }
}

impl Default for TaskIssues {
    fn default() -> (r: Self)
        ensures
            r.wf(),
            r.missing_states@.len() == 0,
            r.invalid_states.count() == 0,
            r.all_implementations.count() == 0,
    {
        TaskIssues::new()
    }
}

/// The occurrence that an invocation is.
fn implementation_of(x: &TaskInvocation) -> (r: TaskImplementation)
    ensures
        r@ == occurrence_of(x@),
{
    TaskImplementation {
        repo_name: x.repo_name.clone(),
        version: x.version.clone(),
        file_path: x.file_path.clone(),
    }
}

/// What the first pass of an audit brings besides the findings: the
/// repositories that use the versioning tool, and which of its steps occur.
struct ToolSummary {
    repos: Vec<String>,
    has_setup: bool,
    has_execute: bool,
}

/// Whether a task occurs among one invocation more.
proof fn lemma_occurs_step(invs: Seq<Invocation>, task: Seq<char>, n: int)
    requires
        0 <= n < invs.len(),
    ensures
        occurs(invs, task, n + 1) <==> occurs(invs, task, n) || invs[n].task == task,
{
    if occurs(invs, task, n + 1) {
        let i = choose|i: int| 0 <= i < n + 1 && i < invs.len() && (#[trigger] invs[i]).task == task;
        if i < n {
            assert(occurs(invs, task, n));
        }
    }
    if occurs(invs, task, n) {
        let i = choose|i: int| 0 <= i < n && i < invs.len() && (#[trigger] invs[i]).task == task;
        assert(0 <= i < n + 1 && invs[i].task == task);
    }
    if invs[n].task == task {
        assert(0 <= n < n + 1 && invs[n].task == task);
    }
}

/// The first pass: records every occurrence, and for the tasks outside
/// the versioning tool the tasks without states and the rejected
/// occurrences.
fn record_occurrences(
    invocations: &Vec<TaskInvocation>,
    registry: &Registry,
    issues: &mut TaskIssues,
) -> (r: ToolSummary)
    requires
        old(issues).wf(),
        old(issues).missing_states@.len() == 0,
        old(issues).invalid_states.count() == 0,
        old(issues).all_implementations.count() == 0,
    ensures
        final(issues).wf(),
        final(issues).all_implementations.keys() == tasks_seen(
            invocation_views(invocations@),
            invocations@.len() as int,
        ),
        string_texts(final(issues).missing_states@) == tasks_without_policy(
            invocation_views(invocations@),
            registry@,
            invocations@.len() as int,
        ),
        forall|task: Seq<char>| #[trigger]
            final(issues).implementations(task) == implementations_of(
                invocation_views(invocations@),
                task,
                invocations@.len() as int,
            ),
        forall|task: Seq<char>| #[trigger]
            final(issues).is_missing(task) <==> lacks_policy(
                invocation_views(invocations@),
                registry@,
                task,
                invocations@.len() as int,
            ),
        forall|task: Seq<char>, repo: Seq<char>| #[trigger]
            final(issues).rejected(task, repo) == rejected_of(
                invocation_views(invocations@),
                registry@,
                task,
                repo,
                invocations@.len() as int,
            ),
        final(issues).invalid_states.keys() == rejected_tasks(
            invocation_views(invocations@),
            registry@,
            invocations@.len() as int,
        ),
        forall|task: Seq<char>| #[trigger]
            keys_under(final(issues).invalid_states, task) == rejected_repos(
                invocation_views(invocations@),
                registry@,
                task,
                invocations@.len() as int,
            ),
        string_texts(r.repos@) == tool_repos(invocation_views(invocations@), invocations@.len() as int),
        r.has_setup <==> occurs(
            invocation_views(invocations@),
            setup_task(),
            invocations@.len() as int,
        ),
        r.has_execute <==> occurs(
            invocation_views(invocations@),
            execute_task(),
            invocations@.len() as int,
        ),
{
    let ghost invs = invocation_views(invocations@);
    let ghost reg = registry@;
    let mut summary = ToolSummary { repos: Vec::new(), has_setup: false, has_execute: false };
    let mut i: usize = 0;
    proof {
        assert forall|task: Seq<char>| #[trigger]
            issues.implementations(task) == implementations_of(invs, task, 0) by {
            assert(occurrences(list_of(issues.all_implementations, task)) == Seq::<
                Occurrence,
            >::empty());
        }
        assert forall|task: Seq<char>, repo: Seq<char>| #[trigger]
            issues.rejected(task, repo) == rejected_of(invs, reg, task, repo, 0) by {
            assert(occurrences(list_under(issues.invalid_states, task, repo)) == Seq::<
                Occurrence,
            >::empty());
        }
        assert(issues.invalid_states.keys() == rejected_tasks(invs, reg, 0));
    }
    while i < invocations.len()
        invariant
            i <= invocations.len(),
            invs == invocation_views(invocations@),
            reg == registry@,
            issues.wf(),
            issues.all_implementations.keys() == tasks_seen(invs, i as int),
            string_texts(issues.missing_states@) == tasks_without_policy(invs, reg, i as int),
            forall|task: Seq<char>| #[trigger]
                issues.implementations(task) == implementations_of(invs, task, i as int),
            forall|task: Seq<char>| #[trigger]
                issues.is_missing(task) <==> lacks_policy(invs, reg, task, i as int),
            forall|task: Seq<char>, repo: Seq<char>| #[trigger]
                issues.rejected(task, repo) == rejected_of(invs, reg, task, repo, i as int),
            issues.invalid_states.keys() == rejected_tasks(invs, reg, i as int),
            forall|task: Seq<char>| #[trigger]
                keys_under(issues.invalid_states, task) == rejected_repos(
                    invs,
                    reg,
                    task,
                    i as int,
                ),
            string_texts(summary.repos@) == tool_repos(invs, i as int),
            summary.has_setup <==> occurs(invs, setup_task(), i as int),
            summary.has_execute <==> occurs(invs, execute_task(), i as int),
        decreases invocations.len() - i,
    {
        let x = &invocations[i];
        let ghost before = *issues;
        assert(invs[i as int] == x@);
        proof {
            lemma_occurs_step(invs, setup_task(), i as int);
            lemma_occurs_step(invs, execute_task(), i as int);
            lemma_steps_differ();
        }
        let item = implementation_of(x);
        push_to(&mut issues.all_implementations, x.task_name.as_str(), item);
        proof {
            assert forall|task: Seq<char>| #[trigger]
                issues.implementations(task) == implementations_of(invs, task, i + 1) by {
                assert(before.implementations(task) == implementations_of(invs, task, i as int));
                if task == x.task_name@ {
                    assert(occurrences(list_of(issues.all_implementations, task)) == occurrences(
                        list_of(before.all_implementations, task),
                    ).push(item@));
                } else {
                    assert(list_of(issues.all_implementations, task) == list_of(
                        before.all_implementations,
                        task,
                    ));
                }
            }
        }
        let ghost after_push = *issues;
        let ghost mut after_missing = *issues;
        if names_tool_step(x.task_name.as_str()) {
            if same_str(x.task_name.as_str(), "gitversion/setup") {
                summary.has_setup = true;
            } else {
                summary.has_execute = true;
            }
            if !holds_text(&summary.repos, x.repo_name.as_str()) {
                let ghost old_names = string_texts(summary.repos@);
                let name = x.repo_name.clone();
                summary.repos.push(name);
                assert(string_texts(summary.repos@) == old_names.push(name@));
            }
            proof {
                assert forall|task: Seq<char>| #[trigger]
                    issues.is_missing(task) <==> lacks_policy(invs, reg, task, i + 1) by {
                    assert(before.is_missing(task) <==> lacks_policy(invs, reg, task, i as int));
                    lemma_occurs_step(invs, task, i as int);
                }
                assert forall|task: Seq<char>, repo: Seq<char>| #[trigger]
                    issues.rejected(task, repo) == rejected_of(invs, reg, task, repo, i + 1) by {
                    assert(before.rejected(task, repo) == rejected_of(
                        invs,
                        reg,
                        task,
                        repo,
                        i as int,
                    ));
                }
                after_missing = *issues;
            }
        } else {
            let states = registry.states_for(x.task_name.as_str());
            let ghost old_missing = string_texts(issues.missing_states@);
            if states.len() == 0 && !holds_text(&issues.missing_states, x.task_name.as_str()) {
                let name = x.task_name.clone();
                issues.missing_states.push(name);
                assert(string_texts(issues.missing_states@) == old_missing.push(name@));
            }
            proof {
                assert(state_views(states@).len() == states@.len());
                assert forall|task: Seq<char>| #[trigger]
                    issues.is_missing(task) <==> lacks_policy(invs, reg, task, i + 1) by {
                    assert(before.is_missing(task) <==> lacks_policy(invs, reg, task, i as int));
                    lemma_occurs_step(invs, task, i as int);
                    let now = string_texts(issues.missing_states@);
                    if now.len() > old_missing.len() {
                        assert(now == old_missing.push(x.task_name@));
                        if old_missing.contains(task) {
                            let j = choose|j: int|
                                0 <= j < old_missing.len() && old_missing[j] == task;
                            assert(now[j] == task);
                        }
                        if task == x.task_name@ {
                            assert(now[now.len() - 1] == task);
                        }
                        if now.contains(task) {
                            let j = choose|j: int| 0 <= j < now.len() && now[j] == task;
                            if j < old_missing.len() {
                                assert(old_missing[j] == task);
                            }
                        }
                    }
                }
            }
            let status = classify_version(&states, x.version.as_str());
            let ghost mid = *issues;
            proof {
                after_missing = *issues;
            }
            if status == Compliance::NonCompliant {
                let bad = implementation_of(x);
                push_under(
                    &mut issues.invalid_states,
                    x.task_name.as_str(),
                    x.repo_name.as_str(),
                    bad,
                );
                proof {
                    assert forall|task: Seq<char>, repo: Seq<char>| #[trigger]
                        issues.rejected(task, repo) == rejected_of(
                            invs,
                            reg,
                            task,
                            repo,
                            i + 1,
                        ) by {
                        assert(before.rejected(task, repo) == rejected_of(
                            invs,
                            reg,
                            task,
                            repo,
                            i as int,
                        ));
                        if task == x.task_name@ && repo == x.repo_name@ {
                            assert(occurrences(list_under(issues.invalid_states, task, repo))
                                == occurrences(list_under(mid.invalid_states, task, repo)).push(
                                bad@,
                            ));
                        } else {
                            assert(list_under(issues.invalid_states, task, repo) == list_under(
                                mid.invalid_states,
                                task,
                                repo,
                            ));
                        }
                    }
                }
            } else {
                proof {
                    assert forall|task: Seq<char>, repo: Seq<char>| #[trigger]
                        issues.rejected(task, repo) == rejected_of(
                            invs,
                            reg,
                            task,
                            repo,
                            i + 1,
                        ) by {
                        assert(before.rejected(task, repo) == rejected_of(
                            invs,
                            reg,
                            task,
                            repo,
                            i as int,
                        ));
                    }
                }
            }
            proof {
                assert(string_texts(issues.missing_states@).no_duplicates()) by {
                    let now = string_texts(issues.missing_states@);
                    if now.len() > old_missing.len() {
                        assert(now == old_missing.push(x.task_name@));
                        assert(!old_missing.contains(x.task_name@));
                        assert forall|a: int, b: int|
                            0 <= a < now.len() && 0 <= b < now.len() && a != b implies now[a]
                            != now[b] by {
                            if a < old_missing.len() && b < old_missing.len() {
                                assert(old_missing[a] != old_missing[b]);
                            } else if a < old_missing.len() {
                                assert(old_missing[a] == now[a]);
                                assert(old_missing.contains(now[a]));
                            } else if b < old_missing.len() {
                                assert(old_missing[b] == now[b]);
                                assert(old_missing.contains(now[b]));
                            }
                        }
                    }
                }
            }
        }
        proof {
            assert forall|task: Seq<char>| #[trigger]
                keys_under(issues.invalid_states, task) == rejected_repos(
                    invs,
                    reg,
                    task,
                    i + 1,
                ) by {
                assert(keys_under(before.invalid_states, task) == rejected_repos(
                    invs,
                    reg,
                    task,
                    i as int,
                ));
            }
            assert forall|task: Seq<char>| #[trigger]
                issues.implementations(task) == implementations_of(invs, task, i + 1) by {
                assert(issues.all_implementations == after_push.all_implementations);
                assert(after_push.implementations(task) == implementations_of(
                    invs,
                    task,
                    i + 1,
                ));
            }
            assert forall|task: Seq<char>| #[trigger]
                issues.is_missing(task) <==> lacks_policy(invs, reg, task, i + 1) by {
                assert(issues.missing_states == after_missing.missing_states);
                assert(after_missing.is_missing(task) <==> lacks_policy(
                    invs,
                    reg,
                    task,
                    i + 1,
                ));
            }
        }
        i = i + 1;
    }
    summary
}

/// The two steps of the versioning tool have different names.
pub proof fn lemma_steps_differ()
    ensures
        setup_task() != execute_task(),
{
    reveal_strlit("gitversion/setup");
    reveal_strlit("gitversion/execute");
    assert(setup_task().len() != execute_task().len());
}

/// No repository stands twice among those that use the versioning tool.
pub proof fn lemma_tool_repos_distinct(invs: Seq<Invocation>, n: int)
    ensures
        tool_repos(invs, n).no_duplicates(),
    decreases n,
{
    if n > 0 {
        lemma_tool_repos_distinct(invs, n - 1);
        let before = tool_repos(invs, n - 1);
        let now = tool_repos(invs, n);
        if now.len() > before.len() {
            assert(now == before.push(invs[n - 1].repo));
            assert forall|a: int, b: int|
                0 <= a < now.len() && 0 <= b < now.len() && a != b implies now[a] != now[b] by {
                if a < before.len() && b < before.len() {
                    assert(before[a] != before[b]);
                } else if a < before.len() {
                    assert(before[a] == now[a]);
                    assert(before.contains(now[a]));
                } else if b < before.len() {
                    assert(before[b] == now[b]);
                    assert(before.contains(now[b]));
                }
            }
        }
    }
}

/// The record of a repository whose use of the versioning tool is rejected.
fn make_triple_record(repo: &str, setup: &Option<String>, file: &Option<String>) -> (r:
    TaskImplementation)
    ensures
        r@.repo == repo@,
        r@.version == match *setup {
            Some(v) => v@,
            None => "?"@,
        },
        r@.file == match *file {
            Some(f) => f@,
            None => Seq::<char>::empty(),
        },
{
    TaskImplementation {
        repo_name: repo.to_owned(),
        version: match setup {
            Some(v) => v.clone(),
            None => "?".to_owned(),
        },
        file_path: match file {
            Some(f) => f.clone(),
            None => String::new(),
        },
    }
}

/// The second pass: judges what each repository uses of the versioning
/// tool, and records a rejected use under each step of the tool that
/// occurs.
fn record_tool_use(
    invocations: &Vec<TaskInvocation>,
    registry: &Registry,
    issues: &mut TaskIssues,
    summary: &ToolSummary,
)
    requires
        old(issues).wf(),
        forall|task: Seq<char>, repo: Seq<char>| #[trigger]
            old(issues).rejected(task, repo) == rejected_of(
                invocation_views(invocations@),
                registry@,
                task,
                repo,
                invocations@.len() as int,
            ),
        old(issues).invalid_states.keys() == rejected_tasks(
            invocation_views(invocations@),
            registry@,
            invocations@.len() as int,
        ),
        forall|task: Seq<char>| #[trigger]
            keys_under(old(issues).invalid_states, task) == rejected_repos(
                invocation_views(invocations@),
                registry@,
                task,
                invocations@.len() as int,
            ),
        string_texts(summary.repos@) == tool_repos(
            invocation_views(invocations@),
            invocations@.len() as int,
        ),
        summary.has_setup <==> occurs(
            invocation_views(invocations@),
            setup_task(),
            invocations@.len() as int,
        ),
        summary.has_execute <==> occurs(
            invocation_views(invocations@),
            execute_task(),
            invocations@.len() as int,
        ),
    ensures
        final(issues).wf(),
        final(issues).missing_states == old(issues).missing_states,
        final(issues).all_implementations == old(issues).all_implementations,
        final(issues).invalid_states.keys() == invalid_tasks(
            invocation_views(invocations@),
            registry@,
        ),
        forall|task: Seq<char>| #[trigger]
            keys_under(final(issues).invalid_states, task) == invalid_repos(
                invocation_views(invocations@),
                registry@,
                task,
            ),
        forall|task: Seq<char>, repo: Seq<char>| #[trigger]
            final(issues).rejected(task, repo) == invalid_of(
                invocation_views(invocations@),
                registry@,
                task,
                repo,
            ),
{
    let ghost invs = invocation_views(invocations@);
    let ghost reg = registry@;
    let ghost repos = string_texts(summary.repos@);
    let tool_states = registry.states_for("gitversion");
    proof {
        lemma_tool_repos_distinct(invs, invs.len() as int);
        lemma_steps_differ();
        assert forall|task: Seq<char>, repo: Seq<char>| #[trigger]
            issues.rejected(task, repo) == (if is_tool_step(task) {
                tool_rejected(invs, reg, task, repo, 0)
            } else {
                rejected_of(invs, reg, task, repo, invs.len() as int)
            }) by {
            if is_tool_step(task) {
                lemma_tool_steps_not_rejected(invs, reg, task, repo, invs.len() as int);
            }
            assert(repos.take(0).len() == 0);
        }
        assert(issues.invalid_states.keys() == rejected_tasks(invs, reg, invs.len() as int)
            + recorded_steps(invs, reg, 0));
        assert forall|task: Seq<char>| #[trigger]
            keys_under(issues.invalid_states, task) == recorded_repos(invs, reg, task, 0) by {
            if is_tool_step(task) {
                lemma_tool_steps_have_no_rejected_repos(invs, reg, task, invs.len() as int);
            }
        }
        lemma_rejected_tasks_are_single(invs, reg, invs.len() as int);
    }
    let mut k: usize = 0;
    while k < summary.repos.len()
        invariant
            k <= summary.repos.len(),
            issues.invalid_states.keys() == rejected_tasks(invs, reg, invs.len() as int)
                + recorded_steps(invs, reg, k as int),
            forall|task: Seq<char>| #[trigger]
                keys_under(issues.invalid_states, task) == recorded_repos(
                    invs,
                    reg,
                    task,
                    k as int,
                ),
            forall|t: Seq<char>| #[trigger]
                is_tool_step(t) ==> !rejected_tasks(invs, reg, invs.len() as int).contains(t),
            invs == invocation_views(invocations@),
            reg == registry@,
            repos == string_texts(summary.repos@),
            repos == tool_repos(invs, invs.len() as int),
            repos.no_duplicates(),
            setup_task() != execute_task(),
            summary.has_setup <==> occurs(invs, setup_task(), invs.len() as int),
            summary.has_execute <==> occurs(invs, execute_task(), invs.len() as int),
            state_views(tool_states@) == states_of(reg, tool_name()),
            issues.wf(),
            issues.missing_states == old(issues).missing_states,
            issues.all_implementations == old(issues).all_implementations,
            forall|task: Seq<char>, repo: Seq<char>| #[trigger]
                issues.rejected(task, repo) == (if is_tool_step(task) {
                    tool_rejected(invs, reg, task, repo, k as int)
                } else {
                    rejected_of(invs, reg, task, repo, invs.len() as int)
                }),
        decreases summary.repos.len() - k,
    {
        let name = &summary.repos[k];
        assert(repos[k as int] == name@);
        let ghost before = *issues;
        let found = collect_triple(invocations, name.as_str());
        let status = classify_triple(&tool_states, &found.setup, &found.execute, &found.spec);
        let ghost rejected = triple_rejected(invs, reg, name@);
        assert(rejected <==> status != Compliance::Compliant);
        let ghost record = triple_record(invs, name@);
        if status != Compliance::Compliant {
            if summary.has_setup {
                let item = make_triple_record(name.as_str(), &found.setup, &found.file);
                assert(item@ == record);
                push_under(&mut issues.invalid_states, "gitversion/setup", name.as_str(), item);
            }
        }
        let ghost mid = *issues;
        proof {
            assert forall|task: Seq<char>, repo: Seq<char>| #[trigger]
                mid.rejected(task, repo) == (if task == setup_task() && repo == name@ && rejected
                    && summary.has_setup {
                    before.rejected(task, repo).push(record)
                } else {
                    before.rejected(task, repo)
                }) by {
                if task == setup_task() && repo == name@ && rejected && summary.has_setup {
                    assert(occurrences(list_under(mid.invalid_states, task, repo)) == occurrences(
                        list_under(before.invalid_states, task, repo),
                    ).push(record));
                } else {
                    assert(list_under(mid.invalid_states, task, repo) == list_under(
                        before.invalid_states,
                        task,
                        repo,
                    ));
                }
            }
        }
        if status != Compliance::Compliant {
            if summary.has_execute {
                let item = make_triple_record(name.as_str(), &found.setup, &found.file);
                assert(item@ == record);
                push_under(&mut issues.invalid_states, "gitversion/execute", name.as_str(), item);
            }
        }
        proof {
            assert(repos.take(k + 1) == repos.take(k as int).push(name@));
            let shorter = repos.take(k as int);
            let longer = repos.take(k + 1);
            assert(!shorter.contains(name@)) by {
                if shorter.contains(name@) {
                    let j = choose|j: int| 0 <= j < shorter.len() && shorter[j] == name@;
                    assert(repos[j] == repos[k as int]);
                }
            }
            assert forall|task: Seq<char>, repo: Seq<char>| #[trigger]
                issues.rejected(task, repo) == (if is_tool_step(task) {
                    tool_rejected(invs, reg, task, repo, k + 1)
                } else {
                    rejected_of(invs, reg, task, repo, invs.len() as int)
                }) by {
                assert(before.rejected(task, repo) == (if is_tool_step(task) {
                    tool_rejected(invs, reg, task, repo, k as int)
                } else {
                    rejected_of(invs, reg, task, repo, invs.len() as int)
                }));
                let hit = task == execute_task() && repo == name@ && rejected
                    && summary.has_execute;
                if hit {
                    assert(occurrences(list_under(issues.invalid_states, task, repo))
                        == occurrences(list_under(mid.invalid_states, task, repo)).push(record));
                } else {
                    assert(list_under(issues.invalid_states, task, repo) == list_under(
                        mid.invalid_states,
                        task,
                        repo,
                    ));
                }
                if repo == name@ {
                    assert(longer.contains(repo)) by {
                        assert(longer[k as int] == repo);
                    }
                } else {
                    if longer.contains(repo) {
                        let j = choose|j: int| 0 <= j < longer.len() && longer[j] == repo;
                        assert(shorter[j] == repo);
                    }
                    if shorter.contains(repo) {
                        let j = choose|j: int| 0 <= j < shorter.len() && shorter[j] == repo;
                        assert(longer[j] == repo);
                    }
                }
            }
        }
        proof {
            let singles = rejected_tasks(invs, reg, invs.len() as int);
            let shorter = repos.take(k as int);
            lemma_rejected_tool_repos_within(invs, reg, k as int);
            let judged = rejected_tool_repos(invs, reg, k as int);
            let now = rejected_tool_repos(invs, reg, k + 1);
            assert(!judged.contains(name@)) by {
                if judged.contains(name@) {
                    assert(shorter.contains(name@));
                    let j = choose|j: int| 0 <= j < shorter.len() && shorter[j] == name@;
                    assert(repos[j] == repos[k as int]);
                }
            }
            assert(is_tool_step(setup_task()) && is_tool_step(execute_task()));
            assert(!singles.contains(setup_task()) && !singles.contains(execute_task()));
            let steps = recorded_steps(invs, reg, k as int);
            lemma_joined_holds(singles, steps, setup_task());
            lemma_joined_holds(singles, steps, execute_task());
            assert(before.invalid_states.keys() == singles + steps);
            assert(keys_under(before.invalid_states, setup_task()) == recorded_repos(
                invs,
                reg,
                setup_task(),
                k as int,
            ));
            assert(keys_under(before.invalid_states, execute_task()) == recorded_repos(
                invs,
                reg,
                execute_task(),
                k as int,
            ));
            if rejected {
                assert(now == judged.push(name@));
                if judged.len() > 0 {
                    if summary.has_setup {
                        assert(steps[0] == setup_task());
                        assert(steps.contains(setup_task()));
                    }
                    if summary.has_execute {
                        assert(steps[steps.len() - 1] == execute_task());
                        assert(steps.contains(execute_task()));
                    }
                } else {
                    assert(singles + steps == singles);
                    let with_setup = if summary.has_setup {
                        singles.push(setup_task())
                    } else {
                        singles
                    };
                    assert(mid.invalid_states.keys() == with_setup);
                    assert(!with_setup.contains(execute_task())) by {
                        if with_setup.contains(execute_task()) {
                            let j = choose|j: int|
                                0 <= j < with_setup.len() && with_setup[j] == execute_task();
                            if j < singles.len() {
                                assert(singles[j] == execute_task());
                            }
                        }
                    }
                }
                assert(issues.invalid_states.keys() == singles + recorded_steps(invs, reg, k + 1));
            } else {
                assert(now == judged);
            }
            assert forall|task: Seq<char>| #[trigger]
                keys_under(issues.invalid_states, task) == recorded_repos(
                    invs,
                    reg,
                    task,
                    k + 1,
                ) by {
                assert(keys_under(before.invalid_states, task) == recorded_repos(
                    invs,
                    reg,
                    task,
                    k as int,
                ));
                if task != setup_task() {
                    assert(keys_under(mid.invalid_states, task) == keys_under(
                        before.invalid_states,
                        task,
                    ));
                }
                if task != execute_task() {
                    assert(keys_under(issues.invalid_states, task) == keys_under(
                        mid.invalid_states,
                        task,
                    ));
                }
            }
        }
        k = k + 1;
    }
    proof {
        assert(repos.take(summary.repos.len() as int) == repos);
    }
}

/// What is recorded under a task once the first `k` of the repositories
/// that use the versioning tool are judged.
pub open spec fn recorded_repos(
    invs: Seq<Invocation>,
    registry: Seq<PolicyView>,
    task: Seq<char>,
    k: int,
) -> Seq<Seq<char>> {
    if is_tool_step(task) {
        if occurs(invs, task, invs.len() as int) {
            rejected_tool_repos(invs, registry, k)
        } else {
            Seq::<Seq<char>>::empty()
        }
    } else {
        rejected_repos(invs, registry, task, invs.len() as int)
    }
}

/// A text stands in two lists put together where it stands in one of
/// them.
proof fn lemma_joined_holds(a: Seq<Seq<char>>, b: Seq<Seq<char>>, x: Seq<char>)
    ensures
        (a + b).contains(x) <==> a.contains(x) || b.contains(x),
{
    let c = a + b;
    if c.contains(x) {
        let j = choose|j: int| 0 <= j < c.len() && c[j] == x;
        if j < a.len() {
            assert(a[j] == x);
        } else {
            assert(b[j - a.len()] == x);
        }
    }
    if a.contains(x) {
        let j = choose|j: int| 0 <= j < a.len() && a[j] == x;
        assert(c[j] == x);
    }
    if b.contains(x) {
        let j = choose|j: int| 0 <= j < b.len() && b[j] == x;
        assert(c[j + a.len()] == x);
    }
}

/// No step of the versioning tool is among the tasks with rejected
/// occurrences of their own.
proof fn lemma_rejected_tasks_are_single(invs: Seq<Invocation>, registry: Seq<PolicyView>, n: int)
    ensures
        forall|t: Seq<char>| #[trigger]
            is_tool_step(t) ==> !rejected_tasks(invs, registry, n).contains(t),
    decreases n,
{
    if n > 0 {
        lemma_rejected_tasks_are_single(invs, registry, n - 1);
        let before = rejected_tasks(invs, registry, n - 1);
        let now = rejected_tasks(invs, registry, n);
        assert forall|t: Seq<char>| #[trigger] is_tool_step(t) implies !now.contains(t) by {
            if now.contains(t) {
                let j = choose|j: int| 0 <= j < now.len() && now[j] == t;
                if j < before.len() {
                    assert(before[j] == t);
                    assert(before.contains(t));
                }
            }
        }
    }
}

/// No repository is recorded under a step of the versioning tool for a
/// rejected occurrence of its own.
proof fn lemma_tool_steps_have_no_rejected_repos(
    invs: Seq<Invocation>,
    registry: Seq<PolicyView>,
    task: Seq<char>,
    n: int,
)
    requires
        is_tool_step(task),
    ensures
        rejected_repos(invs, registry, task, n) == Seq::<Seq<char>>::empty(),
    decreases n,
{
    if n > 0 {
        lemma_tool_steps_have_no_rejected_repos(invs, registry, task, n - 1);
    }
}

/// The repositories whose use of the versioning tool is rejected among
/// the first `k` are among the first `k`.
proof fn lemma_rejected_tool_repos_within(invs: Seq<Invocation>, registry: Seq<PolicyView>, k: int)
    requires
        0 <= k <= tool_repos(invs, invs.len() as int).len(),
    ensures
        forall|r: Seq<char>|
            rejected_tool_repos(invs, registry, k).contains(r) ==> tool_repos(
                invs,
                invs.len() as int,
            ).take(k).contains(r),
    decreases k,
{
    if k > 0 {
        lemma_rejected_tool_repos_within(invs, registry, k - 1);
        let repos = tool_repos(invs, invs.len() as int);
        let before = rejected_tool_repos(invs, registry, k - 1);
        let now = rejected_tool_repos(invs, registry, k);
        assert forall|r: Seq<char>| now.contains(r) implies repos.take(k).contains(r) by {
            let j = choose|j: int| 0 <= j < now.len() && now[j] == r;
            if j < before.len() {
                assert(before[j] == r);
                assert(before.contains(r));
                let shorter = repos.take(k - 1);
                assert(shorter.contains(r));
                let i = choose|i: int| 0 <= i < shorter.len() && shorter[i] == r;
                assert(repos.take(k)[i] == r);
            } else {
                assert(repos.take(k)[k - 1] == r);
            }
        }
    }
}

/// No occurrence of a step of the versioning tool is among the rejected
/// occurrences of single tasks.
pub proof fn lemma_tool_steps_not_rejected(
    invs: Seq<Invocation>,
    registry: Seq<PolicyView>,
    task: Seq<char>,
    repo: Seq<char>,
    n: int,
)
    requires
        is_tool_step(task),
    ensures
        rejected_of(invs, registry, task, repo, n) == Seq::<Occurrence>::empty(),
    decreases n,
{
    if n > 0 {
        lemma_tool_steps_not_rejected(invs, registry, task, repo, n - 1);
    }
}

/// Audits the invocations against the registry.
///
/// Every occurrence is recorded under its task. A task outside the
/// versioning tool that has no approved state is recorded as missing, and
/// nothing else is recorded of its occurrences. Where such a task has
/// states, each of its occurrences that none of them approves is recorded
/// as invalid under its task and repository. For the versioning tool, each
/// repository whose triple of versions no state approves is recorded once
/// under each step of the tool that occurs.
pub fn check_task_implementations(invocations: &Vec<TaskInvocation>, registry: &Registry) -> (r:
    TaskIssues)
    ensures
        r.wf(),
        r.all_implementations.keys() == tasks_seen(
            invocation_views(invocations@),
            invocations@.len() as int,
        ),
        string_texts(r.missing_states@) == tasks_without_policy(
            invocation_views(invocations@),
            registry@,
            invocations@.len() as int,
        ),
        forall|task: Seq<char>| #[trigger]
            r.implementations(task) == implementations_of(
                invocation_views(invocations@),
                task,
                invocations@.len() as int,
            ),
        forall|task: Seq<char>| #[trigger]
            r.is_missing(task) <==> lacks_policy(
                invocation_views(invocations@),
                registry@,
                task,
                invocations@.len() as int,
            ),
        forall|task: Seq<char>, repo: Seq<char>| #[trigger]
            r.rejected(task, repo) == invalid_of(
                invocation_views(invocations@),
                registry@,
                task,
                repo,
            ),
        r.invalid_states.keys() == invalid_tasks(invocation_views(invocations@), registry@),
        forall|task: Seq<char>| #[trigger]
            keys_under(r.invalid_states, task) == invalid_repos(
                invocation_views(invocations@),
                registry@,
                task,
            ),
{
    let mut issues = TaskIssues::new();
    let summary = record_occurrences(invocations, registry, &mut issues);
    let ghost mid = issues;
    record_tool_use(invocations, registry, &mut issues, &summary);
    proof {
        assert forall|task: Seq<char>| #[trigger]
            issues.implementations(task) == implementations_of(
                invocation_views(invocations@),
                task,
                invocations@.len() as int,
            ) by {
            assert(mid.implementations(task) == implementations_of(
                invocation_views(invocations@),
                task,
                invocations@.len() as int,
            ));
        }
        assert forall|task: Seq<char>| #[trigger]
            issues.is_missing(task) <==> lacks_policy(
                invocation_views(invocations@),
                registry@,
                task,
                invocations@.len() as int,
            ) by {
            assert(mid.is_missing(task) <==> lacks_policy(
                invocation_views(invocations@),
                registry@,
                task,
                invocations@.len() as int,
            ));
        }
    }
    issues
}

} // verus!
