//! Classifying task invocations against the approved states of their task.

use crate::config::Config;
use crate::extract::{execute_task, invocation_views, setup_task, Invocation, TaskInvocation};
use crate::task::{
    lowercase, state_views, SupportedTask, TaskKind, TaskValidState, ValidState,
};
use crate::text::{
    chars_of, eq_ignore_case, holds_text, same_ignoring_case, same_str, string_texts,
};
use crate::version::{equivalent, version_equivalent};
use vstd::prelude::*;

verus! {

/// How an invocation stands against the approved states of its task.
#[derive(Debug, Clone, Copy, PartialEq, Eq, Structural)]
pub enum Compliance {
    Compliant,
    NonCompliant,
    NoPolicyDefined,
}

/// The approved states recorded under one task name.
#[derive(Debug)]
pub struct Policy {
    pub task: String,
    pub states: Vec<TaskValidState>,
}

/// The registry of approved states. A task's states are those of every
/// policy whose task name equals the task's but for the case of ASCII
/// letters.
#[derive(Debug)]
pub struct Registry {
    pub policies: Vec<Policy>,
}

/// The mathematical form of a policy.
pub struct PolicyView {
    pub task: Seq<char>,
    pub states: Seq<ValidState>,
}

impl View for Policy {
    type V = PolicyView;

    open spec fn view(&self) -> PolicyView {
        PolicyView { task: self.task@, states: state_views(self.states@) }
    }
}

impl View for Registry {
    type V = Seq<PolicyView>;

    open spec fn view(&self) -> Seq<PolicyView> {
        Seq::new(self.policies@.len(), |i: int| self.policies@[i]@)
    }
}

/// The name under which the triples of the versioning tool are recorded.
pub open spec fn tool_name() -> Seq<char> {
    "gitversion"@
}

/// The approved states of a task: those of each policy for it, in order.
pub open spec fn states_of(registry: Seq<PolicyView>, task: Seq<char>) -> Seq<ValidState>
    decreases registry.len(),
{
    if registry.len() == 0 {
        Seq::<ValidState>::empty()
    } else {
        let before = states_of(registry.drop_last(), task);
        if eq_ignore_case(registry.last().task, task) {
            before + registry.last().states
        } else {
            before
        }
    }
}

/// Whether a state approves a version: it is a single version equivalent
/// to it.
pub open spec fn approves_version(state: ValidState, version: Seq<char>) -> bool {
    state matches ValidState::Single(v) && version_equivalent(v, version)
}

/// Whether a state approves a triple: it is a triple, every member of the
/// found triple is there, and each is equivalent to its counterpart.
pub open spec fn approves_triple(
    state: ValidState,
    setup: Option<Seq<char>>,
    execute: Option<Seq<char>>,
    spec: Option<Seq<char>>,
) -> bool {
    &&& state matches ValidState::Triple(a, b, c)
    &&& setup matches Some(x)
    &&& execute matches Some(y)
    &&& spec matches Some(z)
    &&& version_equivalent(a, x)
    &&& version_equivalent(b, y)
    &&& version_equivalent(c, z)
}

/// The standing of a version against the states of its task: compliant
/// where a state approves it, without policy where the task has no state,
/// else not compliant.
pub open spec fn version_status(states: Seq<ValidState>, version: Seq<char>) -> Compliance {
    if exists|j: int| 0 <= j < states.len() && approves_version(#[trigger] states[j], version) {
        Compliance::Compliant
    } else if states.len() == 0 {
        Compliance::NoPolicyDefined
    } else {
        Compliance::NonCompliant
    }
}

/// The standing of a triple against the states of the versioning tool:
/// compliant where a state approves it, else not compliant.
pub open spec fn triple_status(
    states: Seq<ValidState>,
    setup: Option<Seq<char>>,
    execute: Option<Seq<char>>,
    spec: Option<Seq<char>>,
) -> Compliance {
    if exists|j: int|
        0 <= j < states.len() && approves_triple(#[trigger] states[j], setup, execute, spec) {
        Compliance::Compliant
    } else {
        Compliance::NonCompliant
    }
}

/// The text of an optional string.
pub open spec fn opt_text(o: Option<String>) -> Option<Seq<char>> {
    match o {
        Some(s) => Some(s@),
        None => None,
    }
}

impl Registry {
    /// The registry without policies.
    pub fn new() -> (r: Self)
        ensures
            r@.len() == 0,
    {
        Registry { policies: Vec::new() }
    }

    /// Records a state under a task name, as a policy of its own.
    pub fn add(&mut self, task: &str, state: TaskValidState)
        ensures
            final(self)@ == old(self)@.push(PolicyView { task: task@, states: seq![state@] }),
    {
        let mut states: Vec<TaskValidState> = Vec::new();
        states.push(state);
        let policy = Policy { task: task.to_owned(), states };
        assert(policy@.states == seq![state@]);
        self.policies.push(policy);
        assert(self@ == old(self)@.push(policy@));
    }

    /// The approved states of a task.
    pub fn states_for(&self, task: &str) -> (r: Vec<TaskValidState>)
        ensures
            state_views(r@) == states_of(self@, task@),
    {
        let wanted = chars_of(task);
        let mut out: Vec<TaskValidState> = Vec::new();
        let mut i: usize = 0;
        while i < self.policies.len()
            invariant
                i <= self.policies.len(),
                wanted@ == task@,
                state_views(out@) == states_of(self@.take(i as int), task@),
            decreases self.policies.len() - i,
        {
            assert(self@.take(i + 1).drop_last() == self@.take(i as int));
            assert(self@.take(i + 1).last() == self.policies@[i as int]@);
            let policy = &self.policies[i];
            if same_ignoring_case(&chars_of(policy.task.as_str()), &wanted) {
                let ghost start = state_views(out@);
                let mut j: usize = 0;
                while j < policy.states.len()
                    invariant
                        j <= policy.states.len(),
                        state_views(out@) == start + state_views(policy.states@).take(j as int),
                    decreases policy.states.len() - j,
                {
                    let item = policy.states[j].duplicate();
                    let ghost before = state_views(out@);
                    out.push(item);
                    assert(state_views(out@) == before.push(item@));
                    assert(state_views(policy.states@).take(j + 1) == state_views(
                        policy.states@,
                    ).take(j as int).push(item@));
                    j = j + 1;
                }
                assert(state_views(policy.states@).take(policy.states.len() as int)
                    == state_views(policy.states@));
            }
            i = i + 1;
        }
        assert(self@.take(self.policies.len() as int) == self@);
        out
    }
}

/// Whether a state approves a version.
pub fn state_approves_version(state: &TaskValidState, version: &str) -> (r: bool)
    ensures
        r == approves_version(state@, version@),
{
    match state {
        TaskValidState::Default(v) => equivalent(v.as_str(), version),
        TaskValidState::Gitversion(_) => false,
    }
}

/// Whether a state approves a triple.
pub fn state_approves_triple(
    state: &TaskValidState,
    setup: &Option<String>,
    execute: &Option<String>,
    spec: &Option<String>,
) -> (r: bool)
    ensures
        r == approves_triple(state@, opt_text(*setup), opt_text(*execute), opt_text(*spec)),
{
    match (state, setup, execute, spec) {
        (TaskValidState::Gitversion(s), Some(x), Some(y), Some(z)) => {
            equivalent(s.setup_version.as_str(), x.as_str()) && equivalent(
                s.execute_version.as_str(),
                y.as_str(),
            ) && equivalent(s.spec_version.as_str(), z.as_str())
        },
        _ => false,
    }
}

/// Classifies a version against the approved states of its task.
pub fn classify_version(states: &Vec<TaskValidState>, version: &str) -> (r: Compliance)
    ensures
        r == version_status(state_views(states@), version@),
{
    let mut i: usize = 0;
    while i < states.len()
        invariant
            i <= states.len(),
            forall|j: int|
                0 <= j < i ==> !approves_version(#[trigger] state_views(states@)[j], version@),
        decreases states.len() - i,
    {
        assert(state_views(states@)[i as int] == states@[i as int]@);
        if state_approves_version(&states[i], version) {
            return Compliance::Compliant;
        }
        i = i + 1;
    }
    if states.len() == 0 {
        Compliance::NoPolicyDefined
    } else {
        Compliance::NonCompliant
    }
}

/// Classifies a triple against the approved states of the versioning
/// tool. A triple with a member missing is never compliant.
pub fn classify_triple(
    states: &Vec<TaskValidState>,
    setup: &Option<String>,
    execute: &Option<String>,
    spec: &Option<String>,
) -> (r: Compliance)
    ensures
        r == triple_status(
            state_views(states@),
            opt_text(*setup),
            opt_text(*execute),
            opt_text(*spec),
        ),
        (setup is None || execute is None || spec is None) ==> r == Compliance::NonCompliant,
{
    let mut i: usize = 0;
    while i < states.len()
        invariant
            i <= states.len(),
            forall|j: int|
                0 <= j < i ==> !approves_triple(
                    #[trigger] state_views(states@)[j],
                    opt_text(*setup),
                    opt_text(*execute),
                    opt_text(*spec),
                ),
        decreases states.len() - i,
    {
        assert(state_views(states@)[i as int] == states@[i as int]@);
        if state_approves_triple(&states[i], setup, execute, spec) {
            return Compliance::Compliant;
        }
        i = i + 1;
    }
    Compliance::NonCompliant
}

/// What was found, against which the states were held: the version of a
/// task, or for the versioning tool the setup, execute and specification
/// versions of a repository, each as far as it was found.
#[derive(Debug, Clone, PartialEq)]
pub enum Evidence {
    Version(String),
    Triple(Option<String>, Option<String>, Option<String>),
}

/// The mathematical form of evidence.
pub enum EvidenceView {
    Version(Seq<char>),
    Triple(Option<Seq<char>>, Option<Seq<char>>, Option<Seq<char>>),
}

impl View for Evidence {
    type V = EvidenceView;

    open spec fn view(&self) -> EvidenceView {
        match self {
            Evidence::Version(v) => EvidenceView::Version(v@),
            Evidence::Triple(a, b, c) => EvidenceView::Triple(
                opt_text(*a),
                opt_text(*b),
                opt_text(*c),
            ),
        }
    }
}

/// The classification of one invocation, or for the versioning tool of
/// one repository, with the evidence.
#[derive(Debug, Clone, PartialEq)]
pub struct ComplianceResult {
    pub repo_name: String,
    pub task_name: String,
    pub file_path: String,
    pub evidence: Evidence,
    pub status: Compliance,
}

/// The mathematical form of a compliance result.
pub struct Verdict {
    pub repo: Seq<char>,
    pub task: Seq<char>,
    pub file: Seq<char>,
    pub evidence: EvidenceView,
    pub status: Compliance,
}

impl View for ComplianceResult {
    type V = Verdict;

    open spec fn view(&self) -> Verdict {
        Verdict {
            repo: self.repo_name@,
            task: self.task_name@,
            file: self.file_path@,
            evidence: self.evidence@,
            status: self.status,
        }
    }
}

/// The mathematical forms of a list of results.
pub open spec fn verdicts(v: Seq<ComplianceResult>) -> Seq<Verdict> {
    Seq::new(v.len(), |i: int| v[i]@)
}

/// Whether a task name is a step of the versioning tool.
pub open spec fn is_tool_step(task: Seq<char>) -> bool {
    task == setup_task() || task == execute_task()
}

/// The verdict on an invocation of a task outside the versioning tool.
pub open spec fn generic_verdict(x: Invocation, registry: Seq<PolicyView>) -> Verdict {
    Verdict {
        repo: x.repo,
        task: x.task,
        file: x.file,
        evidence: EvidenceView::Version(x.version),
        status: version_status(states_of(registry, x.task), x.version),
    }
}

/// The verdicts on the invocations outside the versioning tool among the
/// first `n`, in order.
pub open spec fn generic_verdicts(invs: Seq<Invocation>, registry: Seq<PolicyView>, n: int) -> Seq<
    Verdict,
>
    decreases n,
{
    if n <= 0 {
        Seq::<Verdict>::empty()
    } else {
        let before = generic_verdicts(invs, registry, n - 1);
        if is_tool_step(invs[n - 1].task) {
            before
        } else {
            before.push(generic_verdict(invs[n - 1], registry))
        }
    }
}

/// What a repository uses of the versioning tool, each member as far as
/// it was found, and the file of the setup step.
pub struct RepoTriple {
    pub setup: Option<Seq<char>>,
    pub execute: Option<Seq<char>>,
    pub spec: Option<Seq<char>>,
    pub file: Option<Seq<char>>,
}

/// The triple of a repository by its first `n` invocations: the last setup
/// step gives the setup version and the file, the last setup step with a
/// specification gives the specification, the last execute step gives the
/// execute version.
pub open spec fn triple_upto(invs: Seq<Invocation>, repo: Seq<char>, n: int) -> RepoTriple
    decreases n,
{
    if n <= 0 {
        RepoTriple { setup: None, execute: None, spec: None, file: None }
    } else {
        let before = triple_upto(invs, repo, n - 1);
        let x = invs[n - 1];
        if x.repo != repo {
            before
        } else if x.task == setup_task() {
            RepoTriple {
                setup: Some(x.version),
                execute: before.execute,
                spec: if x.spec is Some {
                    x.spec
                } else {
                    before.spec
                },
                file: Some(x.file),
            }
        } else if x.task == execute_task() {
            RepoTriple {
                setup: before.setup,
                execute: Some(x.version),
                spec: before.spec,
                file: before.file,
            }
        } else {
            before
        }
    }
}

/// The repositories that use the versioning tool in their first `n`
/// invocations, each once, in the order in which they first do.
pub open spec fn tool_repos(invs: Seq<Invocation>, n: int) -> Seq<Seq<char>>
    decreases n,
{
    if n <= 0 {
        Seq::<Seq<char>>::empty()
    } else {
        let before = tool_repos(invs, n - 1);
        let x = invs[n - 1];
        if is_tool_step(x.task) && !before.contains(x.repo) {
            before.push(x.repo)
        } else {
            before
        }
    }
}

/// The verdict on what a repository uses of the versioning tool.
pub open spec fn triple_verdict(
    invs: Seq<Invocation>,
    registry: Seq<PolicyView>,
    repo: Seq<char>,
) -> Verdict {
    let t = triple_upto(invs, repo, invs.len() as int);
    Verdict {
        repo,
        task: tool_name(),
        file: match t.file {
            Some(f) => f,
            None => Seq::<char>::empty(),
        },
        evidence: EvidenceView::Triple(t.setup, t.execute, t.spec),
        status: triple_status(states_of(registry, tool_name()), t.setup, t.execute, t.spec),
    }
}

/// The verdicts on the repositories, in order.
pub open spec fn triple_verdicts(
    invs: Seq<Invocation>,
    registry: Seq<PolicyView>,
    repos: Seq<Seq<char>>,
) -> Seq<Verdict> {
    Seq::new(repos.len(), |k: int| triple_verdict(invs, registry, repos[k]))
}

/// The classification of a list of invocations: one verdict for each
/// invocation outside the versioning tool, in order, then one verdict for
/// each repository that uses the versioning tool.
pub open spec fn classification(invs: Seq<Invocation>, registry: Seq<PolicyView>) -> Seq<
    Verdict,
> {
    generic_verdicts(invs, registry, invs.len() as int) + triple_verdicts(
        invs,
        registry,
        tool_repos(invs, invs.len() as int),
    )
}

/// Whether a task name is a step of the versioning tool.
pub fn names_tool_step(task: &str) -> (r: bool)
    ensures
        r == is_tool_step(task@),
{
    same_str(task, "gitversion/setup") || same_str(task, "gitversion/execute")
}

/// What a repository uses of the versioning tool: setup version, execute
/// version, specification, and the file of the setup step.
pub struct FoundTriple {
    pub setup: Option<String>,
    pub execute: Option<String>,
    pub spec: Option<String>,
    pub file: Option<String>,
}

impl View for FoundTriple {
    type V = RepoTriple;

    open spec fn view(&self) -> RepoTriple {
        RepoTriple {
            setup: opt_text(self.setup),
            execute: opt_text(self.execute),
            spec: opt_text(self.spec),
            file: opt_text(self.file),
        }
    }
}

/// Collects what a repository uses of the versioning tool.
pub fn collect_triple(invocations: &Vec<TaskInvocation>, repo: &str) -> (r: FoundTriple)
    ensures
        r@ == triple_upto(invocation_views(invocations@), repo@, invocations@.len() as int),
{
    let mut found = FoundTriple { setup: None, execute: None, spec: None, file: None };
    let ghost invs = invocation_views(invocations@);
    let mut i: usize = 0;
    while i < invocations.len()
        invariant
            i <= invocations.len(),
            invs == invocation_views(invocations@),
            found@ == triple_upto(invs, repo@, i as int),
        decreases invocations.len() - i,
    {
        let x = &invocations[i];
        assert(invs[i as int] == x@);
        if same_str(x.repo_name.as_str(), repo) {
            if same_str(x.task_name.as_str(), "gitversion/setup") {
                found.setup = Some(x.version.clone());
                found.file = Some(x.file_path.clone());
                match &x.spec {
                    Some(s) => {
                        found.spec = Some(s.clone());
                    },
                    None => {},
                }
            } else if same_str(x.task_name.as_str(), "gitversion/execute") {
                found.execute = Some(x.version.clone());
            }
        }
        i = i + 1;
    }
    found
}

/// A copy of an optional string.
fn copy_opt(o: &Option<String>) -> (r: Option<String>)
    ensures
        r == *o,
{
    match o {
        Some(s) => Some(s.clone()),
        None => None,
    }
}

/// Classifies the invocations against the registry: each invocation of a
/// task outside the versioning tool on its own, and for the versioning
/// tool each repository by the triple of versions that it uses.
pub fn classify(invocations: &Vec<TaskInvocation>, registry: &Registry) -> (r: Vec<
    ComplianceResult,
>)
    ensures
        verdicts(r@) == classification(invocation_views(invocations@), registry@),
{
    let ghost invs = invocation_views(invocations@);
    let mut out: Vec<ComplianceResult> = Vec::new();
    let mut repos: Vec<String> = Vec::new();
    let mut i: usize = 0;
    while i < invocations.len()
        invariant
            i <= invocations.len(),
            invs == invocation_views(invocations@),
            verdicts(out@) == generic_verdicts(invs, registry@, i as int),
            string_texts(repos@) == tool_repos(invs, i as int),
        decreases invocations.len() - i,
    {
        let x = &invocations[i];
        assert(invs[i as int] == x@);
        if names_tool_step(x.task_name.as_str()) {
            if !holds_text(&repos, x.repo_name.as_str()) {
                let ghost before = string_texts(repos@);
                let name = x.repo_name.clone();
                repos.push(name);
                assert(string_texts(repos@) == before.push(name@));
            }
        } else {
            let states = registry.states_for(x.task_name.as_str());
            let status = classify_version(&states, x.version.as_str());
            let item = ComplianceResult {
                repo_name: x.repo_name.clone(),
                task_name: x.task_name.clone(),
                file_path: x.file_path.clone(),
                evidence: Evidence::Version(x.version.clone()),
                status,
            };
            let ghost before = verdicts(out@);
            out.push(item);
            assert(verdicts(out@) == before.push(item@));
        }
        i = i + 1;
    }
    let tool_states = registry.states_for("gitversion");
    let ghost generic = verdicts(out@);
    let ghost all_repos = string_texts(repos@);
    let mut k: usize = 0;
    while k < repos.len()
        invariant
            k <= repos.len(),
            invs == invocation_views(invocations@),
            all_repos == string_texts(repos@),
            state_views(tool_states@) == states_of(registry@, tool_name()),
            verdicts(out@) == generic + triple_verdicts(invs, registry@, all_repos).take(
                k as int,
            ),
        decreases repos.len() - k,
    {
        let repo = &repos[k];
        assert(all_repos[k as int] == repo@);
        let found = collect_triple(invocations, repo.as_str());
        let status = classify_triple(&tool_states, &found.setup, &found.execute, &found.spec);
        let file_path = match &found.file {
            Some(f) => f.clone(),
            None => String::new(),
        };
        let item = ComplianceResult {
            repo_name: repo.clone(),
            task_name: "gitversion".to_owned(),
            file_path,
            evidence: Evidence::Triple(
                copy_opt(&found.setup),
                copy_opt(&found.execute),
                copy_opt(&found.spec),
            ),
            status,
        };
        let ghost before = verdicts(out@);
        out.push(item);
        assert(verdicts(out@) == before.push(item@));
        assert(item@ == triple_verdict(invs, registry@, all_repos[k as int]));
        assert(triple_verdicts(invs, registry@, all_repos).take(k + 1) == triple_verdicts(
            invs,
            registry@,
            all_repos,
        ).take(k as int).push(item@));
        k = k + 1;
    }
    assert(triple_verdicts(invs, registry@, all_repos).take(repos.len() as int)
        == triple_verdicts(invs, registry@, all_repos));
    out
}

/// The registry without the policies of a task.
pub open spec fn without_task(registry: Seq<PolicyView>, task: Seq<char>) -> Seq<PolicyView>
    decreases registry.len(),
{
    if registry.len() == 0 {
        registry
    } else {
        let before = without_task(registry.drop_last(), task);
        if eq_ignore_case(registry.last().task, task) {
            before
        } else {
            before.push(registry.last())
        }
    }
}

/// The registry with the states of a task replaced by the given ones. Where
/// none are given, the registry stays as it is.
pub open spec fn replaced(registry: Seq<PolicyView>, task: Seq<char>, states: Seq<ValidState>) -> Seq<
    PolicyView,
> {
    if states.len() == 0 {
        registry
    } else {
        without_task(registry, task).push(PolicyView { task, states })
    }
}

/// The single versions of a list as approved states.
pub open spec fn single_states(versions: Seq<String>) -> Seq<ValidState> {
    Seq::new(versions.len(), |i: int| ValidState::Single(versions[i]@))
}

/// The registry after the triples of the versioning tool and the first
/// `n` other tasks of a configuration were merged into it: what the
/// configuration lists for a task replaces what the registry had for it.
pub open spec fn merged_upto(registry: Seq<PolicyView>, config: Config, n: int) -> Seq<PolicyView>
    decreases n,
{
    if n <= 0 {
        replaced(registry, tool_name(), config.valid_states(TaskKind::Gitversion))
    } else {
        replaced(
            merged_upto(registry, config, n - 1),
            config.task_states.other_tasks.key_at(n - 1),
            single_states(config.task_states.other_tasks.value_at(n - 1)@),
        )
    }
}

/// The registry after a configuration was merged into it.
pub open spec fn merged(registry: Seq<PolicyView>, config: Config) -> Seq<PolicyView> {
    merged_upto(registry, config, config.task_states.other_tasks.count())
}

/// The task names of the first `n` policies, each once, in the order in
/// which they first stand, without those that name the versioning tool
/// when put in lower case.
pub open spec fn other_task_names(registry: Seq<PolicyView>, n: int) -> Seq<Seq<char>>
    decreases n,
{
    if n <= 0 {
        Seq::<Seq<char>>::empty()
    } else {
        let before = other_task_names(registry, n - 1);
        let name = registry[n - 1].task;
        if lowercase(name) == tool_name() || before.contains(name) {
            before
        } else {
            before.push(name)
        }
    }
}

/// A registry without the policies of a task has no state for it.
pub proof fn lemma_without_task_clears(registry: Seq<PolicyView>, task: Seq<char>)
    ensures
        states_of(without_task(registry, task), task) == Seq::<ValidState>::empty(),
    decreases registry.len(),
{
    if registry.len() > 0 {
        lemma_without_task_clears(registry.drop_last(), task);
        let before = without_task(registry.drop_last(), task);
        if !eq_ignore_case(registry.last().task, task) {
            assert(before.push(registry.last()).drop_last() == before);
        }
    }
}

/// After the states of a task were replaced, the task has exactly the
/// states given.
pub proof fn lemma_replaced_states(registry: Seq<PolicyView>, task: Seq<char>, states: Seq<ValidState>)
    requires
        states.len() > 0,
    ensures
        states_of(replaced(registry, task, states), task) == states,
{
    lemma_without_task_clears(registry, task);
    let cleared = without_task(registry, task);
    let entry = PolicyView { task, states };
    assert(cleared.push(entry).drop_last() == cleared);
    assert(Seq::<ValidState>::empty() + states == states);
}

impl Registry {
    /// Removes the policies of a task.
    pub fn remove_task(&mut self, task: &str)
        ensures
            final(self)@ == without_task(old(self)@, task@),
    {
        let wanted = chars_of(task);
        let ghost all = self@;
        let mut kept: Vec<Policy> = Vec::new();
        let mut rest: Vec<Policy> = Vec::new();
        // Move the policies out from the back, then keep the others in order.
        while self.policies.len() > 0
            invariant
                self@ == all.take(self.policies@.len() as int),
                self.policies@.len() <= all.len(),
                rest@.len() == all.len() - self.policies@.len(),
                forall|j: int|
                    0 <= j < rest@.len() ==> (#[trigger] rest@[j])@ == all[all.len() - 1 - j],
            decreases self.policies@.len(),
        {
            let ghost n = self.policies@.len();
            assert(self@[n - 1] == self.policies@[n - 1]@);
            let last = self.policies.pop();
            match last {
                Some(p) => {
                    assert(p@ == all[n - 1]);
                    rest.push(p);
                    assert(self@ == all.take(n - 1));
                },
                None => {
                    assert(false);
                },
            }
        }
        let ghost back = rest@;
        assert(all.take(0) == Seq::<PolicyView>::empty());
        while rest.len() > 0
            invariant
                wanted@ == task@,
                rest@ == back.take(rest@.len() as int),
                rest@.len() <= back.len(),
                back.len() == all.len(),
                forall|j: int| 0 <= j < back.len() ==> (#[trigger] back[j])@ == all[all.len() - 1 - j],
                policy_views(kept@) == without_task(all.take(all.len() - rest@.len()), task@),
            decreases rest@.len(),
        {
            let ghost n = rest@.len();
            let ghost done = all.len() - n;
            let last = rest.pop();
            assert(rest@ == back.take(n - 1));
            match last {
                Some(p) => {
                    assert(p == back[n - 1]);
                    assert(p@ == all[done]);
                    assert(all.take(done + 1).drop_last() == all.take(done));
                    assert(all.take(done + 1).last() == all[done]);
                    if !same_ignoring_case(&chars_of(p.task.as_str()), &wanted) {
                        let ghost before = policy_views(kept@);
                        kept.push(p);
                        assert(policy_views(kept@) == before.push(p@));
                    }
                },
                None => {
                    assert(false);
                },
            }
        }
        assert(all.take(all.len() as int) == all);
        self.policies = kept;
        assert(self@ == policy_views(kept@));
    }

    /// Replaces the states of a task by the given ones; with none given,
    /// nothing changes.
    pub fn replace(&mut self, task: &str, states: Vec<TaskValidState>)
        ensures
            final(self)@ == replaced(old(self)@, task@, state_views(states@)),
    {
        if states.len() == 0 {
            return ;
        }
        self.remove_task(task);
        let ghost cleared = self@;
        let policy = Policy { task: task.to_owned(), states };
        self.policies.push(policy);
        assert(self@ == cleared.push(policy@));
    }

    /// Merges a configuration into the registry: what the configuration
    /// lists for a task replaces what the registry had for it.
    pub fn merge_config(&mut self, config: &Config)
        ensures
            final(self)@ == merged(old(self)@, *config),
    {
        let triples = config.get_valid_states(&SupportedTask::Gitversion);
        self.replace("gitversion", triples);
        let others = &config.task_states.other_tasks;
        let mut i: usize = 0;
        while i < others.entries.len()
            invariant
                i <= others.entries.len(),
                others == &config.task_states.other_tasks,
                self@ == merged_upto(old(self)@, *config, i as int),
            decreases others.entries.len() - i,
        {
            let entry = &others.entries[i];
            let mut states: Vec<TaskValidState> = Vec::new();
            let mut j: usize = 0;
            while j < entry.1.len()
                invariant
                    j <= entry.1.len(),
                    state_views(states@) == single_states(entry.1@).take(j as int),
                decreases entry.1.len() - j,
            {
                let item = TaskValidState::Default(entry.1[j].clone());
                let ghost before = state_views(states@);
                states.push(item);
                assert(state_views(states@) == before.push(item@));
                assert(single_states(entry.1@).take(j + 1) == single_states(entry.1@).take(
                    j as int,
                ).push(item@));
                j = j + 1;
            }
            assert(single_states(entry.1@).take(entry.1.len() as int) == single_states(entry.1@));
            self.replace(entry.0.as_str(), states);
            i = i + 1;
        }
    }

    /// Every task that the registry knows: the versioning tool first, then
    /// each other task name once.
    pub fn all_tasks(&self) -> (r: Vec<SupportedTask>)
        ensures
            r@.len() == 1 + other_task_names(self@, self@.len() as int).len(),
            r@[0]@ == TaskKind::Gitversion,
            forall|k: int|
                0 <= k < other_task_names(self@, self@.len() as int).len() ==> (
                #[trigger] r@[k + 1])@ == TaskKind::Default(
                    other_task_names(self@, self@.len() as int)[k],
                ),
    {
        let mut out: Vec<SupportedTask> = Vec::new();
        out.push(SupportedTask::Gitversion);
        let mut seen: Vec<String> = Vec::new();
        let mut i: usize = 0;
        while i < self.policies.len()
            invariant
                i <= self.policies.len(),
                string_texts(seen@) == other_task_names(self@, i as int),
                out@.len() == 1 + seen@.len(),
                out@[0]@ == TaskKind::Gitversion,
                forall|k: int|
                    0 <= k < seen@.len() ==> (#[trigger] out@[k + 1])@ == TaskKind::Default(
                        seen@[k]@,
                    ),
            decreases self.policies.len() - i,
        {
            let name = &self.policies[i].task;
            assert(self@[i as int].task == name@);
            let lowered = name.as_str().to_lowercase();
            if !same_str(lowered.as_str(), "gitversion") && !holds_text(&seen, name.as_str()) {
                let ghost before = string_texts(seen@);
                let copy = name.clone();
                seen.push(copy);
                assert(string_texts(seen@) == before.push(copy@));
                out.push(SupportedTask::Default(name.clone()));
            }
            i = i + 1;
        }
        proof {
            assert forall|k: int|
                0 <= k < other_task_names(self@, self@.len() as int).len() implies (
            #[trigger] out@[k + 1])@ == TaskKind::Default(
                other_task_names(self@, self@.len() as int)[k],
            ) by {
                assert(string_texts(seen@)[k] == seen@[k]@);
            }
        }
        out
    }
}

/// The first `n` of the states without those that are the given state,
/// version by version the same text.
pub open spec fn states_without(states: Seq<ValidState>, state: ValidState, n: int) -> Seq<
    ValidState,
>
    decreases n,
{
    if n <= 0 {
        Seq::<ValidState>::empty()
    } else {
        let before = states_without(states, state, n - 1);
        if states[n - 1] == state {
            before
        } else {
            before.push(states[n - 1])
        }
    }
}

/// The registry without a state of a task: the state leaves every policy
/// recorded under exactly the given name, and a policy that is left
/// without states leaves the registry.
pub open spec fn without_state(registry: Seq<PolicyView>, task: Seq<char>, state: ValidState) -> Seq<
    PolicyView,
>
    decreases registry.len(),
{
    if registry.len() == 0 {
        registry
    } else {
        let before = without_state(registry.drop_last(), task, state);
        let last = registry.last();
        if last.task != task {
            before.push(last)
        } else {
            let kept = states_without(last.states, state, last.states.len() as int);
            if kept.len() == 0 {
                before
            } else {
                before.push(PolicyView { task: last.task, states: kept })
            }
        }
    }
}

/// Whether two states hold the same texts.
pub fn same_state(a: &TaskValidState, b: &TaskValidState) -> (r: bool)
    ensures
        r == (a@ == b@),
{
    match (a, b) {
        (TaskValidState::Gitversion(x), TaskValidState::Gitversion(y)) => {
            same_str(x.setup_version.as_str(), y.setup_version.as_str()) && same_str(
                x.execute_version.as_str(),
                y.execute_version.as_str(),
            ) && same_str(x.spec_version.as_str(), y.spec_version.as_str())
        },
        (TaskValidState::Default(x), TaskValidState::Default(y)) => same_str(
            x.as_str(),
            y.as_str(),
        ),
        _ => false,
    }
}

impl Registry {
    /// Removes a state of a task. The state is looked for under the name
    /// of the task in lower case, and it leaves where it stands with
    /// exactly the same texts.
    pub fn remove_state(&mut self, task: &SupportedTask, state: &TaskValidState)
        ensures
            final(self)@ == without_state(old(self)@, lowercase(task.name()), state@),
    {
        let shown = task.to_text();
        let wanted = shown.as_str().to_lowercase();
        let ghost all = self@;
        let ghost name = lowercase(task.name());
        let mut kept: Vec<Policy> = Vec::new();
        let mut i: usize = 0;
        assert(all.take(0) == Seq::<PolicyView>::empty());
        while i < self.policies.len()
            invariant
                i <= self.policies.len(),
                all == self@,
                wanted@ == name,
                policy_views(kept@) == without_state(all.take(i as int), name, state@),
            decreases self.policies.len() - i,
        {
            let policy = &self.policies[i];
            assert(all.take(i + 1).drop_last() == all.take(i as int));
            assert(all.take(i + 1).last() == policy@);
            let ghost views = state_views(policy.states@);
            let mut states: Vec<TaskValidState> = Vec::new();
            let mut j: usize = 0;
            while j < policy.states.len()
                invariant
                    j <= policy.states.len(),
                    views == state_views(policy.states@),
                    state_views(states@) == states_without(views, state@, j as int),
                decreases policy.states.len() - j,
            {
                assert(views[j as int] == policy.states@[j as int]@);
                if !same_state(&policy.states[j], state) {
                    let item = policy.states[j].duplicate();
                    let ghost before = state_views(states@);
                    states.push(item);
                    assert(state_views(states@) == before.push(item@));
                }
                j = j + 1;
            }
            let ghost before = policy_views(kept@);
            if !same_str(policy.task.as_str(), wanted.as_str()) {
                let copy = Policy { task: policy.task.clone(), states: copy_states(&policy.states) };
                assert(copy@ == policy@);
                kept.push(copy);
                assert(policy_views(kept@) == before.push(policy@));
            } else if states.len() > 0 {
                let left = Policy { task: policy.task.clone(), states };
                kept.push(left);
                assert(policy_views(kept@) == before.push(left@));
            }
            i = i + 1;
        }
        assert(all.take(self.policies.len() as int) == all);
        self.policies = kept;
        assert(self@ == policy_views(kept@));
    }
}

/// The first `n` of the states, each once, in the order in which they
/// first stand.
pub open spec fn distinct_states(states: Seq<ValidState>, n: int) -> Seq<ValidState>
    decreases n,
{
    if n <= 0 {
        Seq::<ValidState>::empty()
    } else {
        let before = distinct_states(states, n - 1);
        if before.contains(states[n - 1]) {
            before
        } else {
            before.push(states[n - 1])
        }
    }
}

/// Whether a list of states holds a state with the same texts.
fn holds_state(list: &Vec<TaskValidState>, state: &TaskValidState) -> (r: bool)
    ensures
        r == state_views(list@).contains(state@),
{
    let mut i: usize = 0;
    while i < list.len()
        invariant
            i <= list.len(),
            forall|j: int| 0 <= j < i ==> state_views(list@)[j] != state@,
        decreases list.len() - i,
    {
        if same_state(&list[i], state) {
            assert(state_views(list@)[i as int] == state@);
            return true;
        }
        i = i + 1;
    }
    false
}

impl Registry {
    /// Records a state under the name of a task.
    pub fn add_valid_state(&mut self, task: &SupportedTask, state: &TaskValidState)
        ensures
            final(self)@ == old(self)@.push(
                PolicyView { task: task.name(), states: seq![state@] },
            ),
    {
        let name = task.to_text();
        self.add(name.as_str(), state.duplicate());
    }

    /// The approved states of a task, each once: those recorded under its
    /// name, whatever the case of ASCII letters.
    pub fn list_valid_states(&self, task: &SupportedTask) -> (r: Vec<TaskValidState>)
        ensures
            state_views(r@) == distinct_states(
                states_of(self@, task.name()),
                states_of(self@, task.name()).len() as int,
            ),
    {
        let name = task.to_text();
        let all = self.states_for(name.as_str());
        let ghost views = state_views(all@);
        let mut out: Vec<TaskValidState> = Vec::new();
        let mut i: usize = 0;
        while i < all.len()
            invariant
                i <= all.len(),
                views == state_views(all@),
                state_views(out@) == distinct_states(views, i as int),
            decreases all.len() - i,
        {
            assert(views[i as int] == all@[i as int]@);
            if !holds_state(&out, &all[i]) {
                let item = all[i].duplicate();
                let ghost before = state_views(out@);
                out.push(item);
                assert(state_views(out@) == before.push(item@));
            }
            i = i + 1;
        }
        out
    }

    /// Removes a state of a task, as `remove_state` does.
    pub fn delete_valid_state(&mut self, task: &SupportedTask, state: &TaskValidState)
        ensures
            final(self)@ == without_state(old(self)@, lowercase(task.name()), state@),
    {
        self.remove_state(task, state);
    }
}

/// A copy of a list of states.
fn copy_states(states: &Vec<TaskValidState>) -> (r: Vec<TaskValidState>)
    ensures
        state_views(r@) == state_views(states@),
{
    let mut out: Vec<TaskValidState> = Vec::new();
    let mut i: usize = 0;
    while i < states.len()
        invariant
            i <= states.len(),
            state_views(out@) == state_views(states@).take(i as int),
        decreases states.len() - i,
    {
        let item = states[i].duplicate();
        let ghost before = state_views(out@);
        out.push(item);
        assert(state_views(out@) == before.push(item@));
        assert(state_views(states@).take(i + 1) == state_views(states@).take(i as int).push(
            item@,
        ));
        i = i + 1;
    }
    assert(state_views(states@).take(states.len() as int) == state_views(states@));
    out
}

/// The mathematical forms of a list of policies.
pub open spec fn policy_views(v: Seq<Policy>) -> Seq<PolicyView> {
    Seq::new(v.len(), |i: int| v[i]@)
}

} // verus!
