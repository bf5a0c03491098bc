//! The tasks that are audited, their approved states, and where a task was
//! found.

use crate::gitversion::GitVersionState;
use crate::text::{
    append, chars_of, eq_ignore_case, join, joined, same_ignoring_case, same_text, string_of,
    texts,
};
use crate::version::{equivalent, version_equivalent};
use vstd::prelude::*;
use vstd::std_specs::cmp::PartialEqSpecImpl;

verus! {

/// What `str::to_lowercase` makes of a text.
pub uninterp spec fn lowercase(s: Seq<char>) -> Seq<char>;

/// `str::to_lowercase` returns the lowercase form of the text; the contract
/// names that form `lowercase`.
pub assume_specification[ str::to_lowercase ](s: &str) -> (r: String)
    ensures
        r@ == lowercase(s@),
;

/// A task family: the versioning tool, or any other task by its name.
#[derive(Debug, Clone, PartialEq)]
pub enum SupportedTask {
    Gitversion,
    Default(String),
}

/// An approved state of a task: a version triple for the versioning tool, a
/// single version for any other task.
#[derive(Debug, Clone)]
pub enum TaskValidState {
    Gitversion(GitVersionState),
    Default(String),
}

/// One occurrence of a task in a pipeline file of a repository.
#[derive(Debug, Clone, PartialEq, Eq, PartialOrd, Ord)]
pub struct TaskImplementation {
    pub repo_name: String,
    pub version: String,
    pub file_path: String,
}

/// The mathematical form of a task family.
pub enum TaskKind {
    Gitversion,
    Default(Seq<char>),
}

/// The task family that a name in lower case stands for.
pub open spec fn task_named(lowered: Seq<char>) -> TaskKind {
    if lowered == "gitversion"@ {
        TaskKind::Gitversion
    } else {
        TaskKind::Default(lowered)
    }
}

/// The task family that a name stands for when the case of ASCII letters
/// is ignored for the versioning tool and the name is kept otherwise.
pub open spec fn task_for_name(name: Seq<char>) -> TaskKind {
    if eq_ignore_case(name, "gitversion"@) {
        TaskKind::Gitversion
    } else {
        TaskKind::Default(name)
    }
}

impl SupportedTask {
    /// The mathematical form of the task family.
    pub open spec fn view(&self) -> TaskKind {
        match self {
            SupportedTask::Gitversion => TaskKind::Gitversion,
            SupportedTask::Default(name) => TaskKind::Default(name@),
        }
    }

    /// The name under which the task is shown and stored.
    pub open spec fn name(&self) -> Seq<char> {
        match self {
            SupportedTask::Gitversion => "gitversion"@,
            SupportedTask::Default(name) => name@,
        }
    }

    /// Every task family that is known without a name.
    pub fn get_all_variants() -> (r: Vec<Self>)
        ensures
            r@.len() == 1,
            r@[0]@ == TaskKind::Gitversion,
    {
        vec![SupportedTask::Gitversion]
    }

    /// The task family for a name already in lower case.
    pub fn from_lowered(lowered: &str) -> (r: Self)
        ensures
            r@ == task_named(lowered@),
    {
        if same_text(&chars_of(lowered), &chars_of("gitversion")) {
            SupportedTask::Gitversion
        } else {
            SupportedTask::Default(lowered.to_owned())
        }
    }

    /// The task family for a name as a user writes it: the name is put in
    /// lower case first.
    pub fn parse(s: &str) -> (r: Self)
        ensures
            r@ == task_named(lowercase(s@)),
    {
        let lowered = s.to_lowercase();
        SupportedTask::from_lowered(lowered.as_str())
    }

    /// The name of the task as text.
    pub fn to_text(&self) -> (r: String)
        ensures
            r@ == self.name(),
    {
        match self {
            SupportedTask::Gitversion => "gitversion".to_owned(),
            SupportedTask::Default(name) => name.clone(),
        }
    }

    /// A copy of the task value.
    pub fn duplicate(&self) -> (r: Self)
        ensures
            r == *self,
    {
        match self {
            SupportedTask::Gitversion => SupportedTask::Gitversion,
            SupportedTask::Default(name) => SupportedTask::Default(name.clone()),
        }
    }
}

impl std::str::FromStr for SupportedTask {
    type Err = String;

    /// Reads a task family from a name as a user writes it. Every name is
    /// taken: the name is put in lower case, and only `gitversion` names
    /// the versioning tool.
    fn from_str(s: &str) -> (r: Result<Self, String>)
        ensures
            r matches Ok(task) && task@ == task_named(lowercase(s@)),
    {
        Ok(SupportedTask::parse(s))
    }
}

/// The task family for a task name; only `gitversion`, in any ASCII case,
/// names the versioning tool.
pub fn parse_task_name(name: &str) -> (r: SupportedTask)
    ensures
        r@ == task_for_name(name@),
{
    if same_ignoring_case(&chars_of(name), &chars_of("gitversion")) {
        SupportedTask::Gitversion
    } else {
        SupportedTask::Default(name.to_owned())
    }
}

/// The mathematical form of an approved state: a triple of setup, execute
/// and specification versions, or a single version.
pub enum ValidState {
    Triple(Seq<char>, Seq<char>, Seq<char>),
    Single(Seq<char>),
}

impl View for TaskValidState {
    type V = ValidState;

    open spec fn view(&self) -> ValidState {
        match self {
            TaskValidState::Gitversion(state) => ValidState::Triple(
                state.setup_version@,
                state.execute_version@,
                state.spec_version@,
            ),
            TaskValidState::Default(version) => ValidState::Single(version@),
        }
    }
}

/// The mathematical forms of a list of approved states.
pub open spec fn state_views(v: Seq<TaskValidState>) -> Seq<ValidState> {
    Seq::new(v.len(), |i: int| v[i]@)
}

impl TaskValidState {
    /// The text that shows the state.
    pub open spec fn text(&self) -> Seq<char> {
        state_text(self@)
    }

    /// Whether two states approve the same versions: both of one shape, and
    /// each version equivalent to its counterpart.
    pub open spec fn same_as(&self, other: &Self) -> bool {
        match (self, other) {
            (TaskValidState::Gitversion(a), TaskValidState::Gitversion(b)) => {
                &&& version_equivalent(a.setup_version@, b.setup_version@)
                &&& version_equivalent(a.execute_version@, b.execute_version@)
                &&& version_equivalent(a.spec_version@, b.spec_version@)
            },
            (TaskValidState::Default(a), TaskValidState::Default(b)) => version_equivalent(
                a@,
                b@,
            ),
            _ => false,
        }
    }

    /// The state shown as text.
    pub fn to_text(&self) -> (r: String)
        ensures
            r@ == self.text(),
    {
        match self {
            TaskValidState::Gitversion(state) => {
                let mut out = chars_of("setup@");
                append(&mut out, &chars_of(state.setup_version.as_str()));
                append(&mut out, &chars_of(", execute@"));
                append(&mut out, &chars_of(state.execute_version.as_str()));
                append(&mut out, &chars_of(", spec@"));
                append(&mut out, &chars_of(state.spec_version.as_str()));
                string_of(&out)
            },
            TaskValidState::Default(version) => {
                let mut out = chars_of("@");
                append(&mut out, &chars_of(version.as_str()));
                string_of(&out)
            },
        }
    }

    /// A copy of this state.
    pub fn duplicate(&self) -> (r: Self)
        ensures
            r == *self,
    {
        match self {
            TaskValidState::Gitversion(state) => TaskValidState::Gitversion(state.duplicate()),
            TaskValidState::Default(version) => TaskValidState::Default(version.clone()),
        }
    }
}

impl PartialEq for TaskValidState {
    fn eq(&self, other: &Self) -> (r: bool) {
        match (self, other) {
            (TaskValidState::Gitversion(a), TaskValidState::Gitversion(b)) => {
                equivalent(a.setup_version.as_str(), b.setup_version.as_str()) && equivalent(
                    a.execute_version.as_str(),
                    b.execute_version.as_str(),
                ) && equivalent(a.spec_version.as_str(), b.spec_version.as_str())
            },
            (TaskValidState::Default(a), TaskValidState::Default(b)) => equivalent(
                a.as_str(),
                b.as_str(),
            ),
            _ => false,
        }
    }
}

impl PartialEqSpecImpl for TaskValidState {
    open spec fn obeys_eq_spec() -> bool {
        true
    }

    open spec fn eq_spec(&self, other: &Self) -> bool {
        self.same_as(other)
    }
}

/// The mathematical form of an occurrence of a task.
pub struct Occurrence {
    pub repo: Seq<char>,
    pub version: Seq<char>,
    pub file: Seq<char>,
}

impl View for TaskImplementation {
    type V = Occurrence;

    open spec fn view(&self) -> Occurrence {
        Occurrence { repo: self.repo_name@, version: self.version@, file: self.file_path@ }
    }
}

/// The mathematical forms of a list of occurrences.
pub open spec fn occurrences(v: Seq<TaskImplementation>) -> Seq<Occurrence> {
    Seq::new(v.len(), |i: int| v[i]@)
}

impl TaskImplementation {
    /// A copy of this occurrence.
    pub fn duplicate(&self) -> (r: Self)
        ensures
            r == *self,
    {
        TaskImplementation {
            repo_name: self.repo_name.clone(),
            version: self.version.clone(),
            file_path: self.file_path.clone(),
        }
    }
}

/// The text that shows an approved state.
pub open spec fn state_text(state: ValidState) -> Seq<char> {
    match state {
        ValidState::Triple(setup, execute, spec) => "setup@"@ + setup + ", execute@"@ + execute
            + ", spec@"@ + spec,
        ValidState::Single(version) => "@"@ + version,
    }
}

/// The line that lists one state.
pub open spec fn state_line(state: ValidState) -> Seq<char> {
    "- "@ + state_text(state)
}

/// The lines that list the states, one each.
pub open spec fn state_lines(states: Seq<ValidState>) -> Seq<Seq<char>> {
    Seq::new(states.len(), |i: int| state_line(states[i]))
}

/// The text that lists the states of a task: `None` where there are none,
/// else one line for each, a line feed between each two.
pub open spec fn states_text(states: Seq<ValidState>) -> Seq<char> {
    if states.len() == 0 {
        "None"@
    } else {
        join(state_lines(states), seq!['\n'])
    }
}

/// The text that lists the states of a task.
pub open spec fn task_states_text(states: Seq<TaskValidState>) -> Seq<char> {
    states_text(state_views(states))
}

/// Lists the approved states of a task as text.
pub fn format_task_states(_task: &SupportedTask, states: Vec<TaskValidState>) -> (r: String)
    ensures
        r@ == task_states_text(states@),
{
    if states.len() == 0 {
        return "None".to_owned();
    }
    let mut lines: Vec<Vec<char>> = Vec::new();
    let mut i: usize = 0;
    while i < states.len()
        invariant
            i <= states.len(),
            texts(lines@) == state_lines(state_views(states@)).take(i as int),
        decreases states.len() - i,
    {
        let mut line = chars_of("- ");
        let shown = states[i].to_text();
        append(&mut line, &chars_of(shown.as_str()));
        let ghost before = texts(lines@);
        lines.push(line);
        assert(texts(lines@) == before + seq![line@]);
        assert(state_views(states@)[i as int] == states@[i as int]@);
        assert(state_lines(state_views(states@)).take(i + 1) == state_lines(
            state_views(states@),
        ).take(i as int) + seq![state_line(states@[i as int]@)]);
        i = i + 1;
    }
    assert(state_lines(state_views(states@)).take(states.len() as int) == state_lines(
        state_views(states@),
    ));
    let sep: Vec<char> = vec!['\n'];
    assert(sep@ == seq!['\n']);
    assert(texts(lines@) == state_lines(state_views(states@)));
    string_of(&joined(&lines, &sep))
}

} // verus!
