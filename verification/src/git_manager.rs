//! Bringing the local mirror of a repository up to date.
//!
//! The work on disk and over the network is done by the caller. This
//! module decides: from the state of a synchronization and the outcome of
//! the action last asked for, it gives the next state and the next action.

use crate::text::{
    after_first, after_last, append, chars_of, contains, has_within, join, join_two, joined,
    same_text, string_of, string_texts, strip_prefix_all, strip_suffix_all, tail_after,
    tail_after_first, texts, trim, trimmed, without_prefix_all, without_suffix_all,
};
use vstd::prelude::*;

verus! {

/// What a synchronization is asked to reach.
#[derive(Debug, Clone, Copy, PartialEq, Eq, Structural)]
pub enum SyncMode {
    /// Clone a missing mirror, bring an existing one up to date.
    Converge,
    /// Clone a missing mirror, leave an existing one as it is.
    CloneOnly,
    /// Clone a missing mirror, accept an existing one unread.
    SkipIfPresent,
}

/// Why a synchronization failed.
#[derive(Debug, Clone, PartialEq)]
pub enum SyncError {
    /// The remote could not be reached or refused the credentials.
    Connection(String),
    /// A step of cloning failed.
    Clone(String),
    /// None of the fallback branches exists.
    BranchNotFound,
    /// A step of updating an existing mirror failed.
    Update(String),
    /// No credentials are available.
    ConfigurationMissing,
}

/// The mathematical form of a synchronization error.
pub enum SyncFault {
    Connection(Seq<char>),
    Clone(Seq<char>),
    BranchNotFound,
    Update(Seq<char>),
    ConfigurationMissing,
}

impl View for SyncError {
    type V = SyncFault;

    open spec fn view(&self) -> SyncFault {
        match self {
            SyncError::Connection(t) => SyncFault::Connection(t@),
            SyncError::Clone(t) => SyncFault::Clone(t@),
            SyncError::BranchNotFound => SyncFault::BranchNotFound,
            SyncError::Update(t) => SyncFault::Update(t@),
            SyncError::ConfigurationMissing => SyncFault::ConfigurationMissing,
        }
    }
}

/// The step of cloning whose outcome is awaited. A fetch or checkout
/// carries the index of its branch in the fallback order.
#[derive(Debug, Clone, Copy, PartialEq, Eq, Structural)]
pub enum CloneStep {
    CreateDir,
    Init,
    EnableSparse,
    CreateInfoDir,
    WritePatterns,
    AddRemote,
    Fetch(u8),
    Checkout(u8),
}

/// The step of updating whose outcome is awaited. A checkout carries the
/// index of its branch in the fallback order.
#[derive(Debug, Clone, Copy, PartialEq, Eq, Structural)]
pub enum ConvergeStep {
    CurrentBranch,
    Checkout(u8),
    EnableSparse,
    WritePatterns,
    Reset,
    Pull,
}

/// The state of the synchronization of one repository.
#[derive(Debug, Clone, PartialEq)]
pub enum SyncState {
    Absent,
    Cloning(CloneStep),
    Converging(ConvergeStep),
    Ready,
    Failed(SyncError),
}

/// The mathematical form of a synchronization state.
pub enum SyncPhase {
    Absent,
    Cloning(CloneStep),
    Converging(ConvergeStep),
    Ready,
    Failed(SyncFault),
}

impl View for SyncState {
    type V = SyncPhase;

    open spec fn view(&self) -> SyncPhase {
        match self {
            SyncState::Absent => SyncPhase::Absent,
            SyncState::Cloning(s) => SyncPhase::Cloning(*s),
            SyncState::Converging(s) => SyncPhase::Converging(*s),
            SyncState::Ready => SyncPhase::Ready,
            SyncState::Failed(e) => SyncPhase::Failed(e@),
        }
    }
}

/// An action that the caller performs.
#[derive(Debug, Clone, PartialEq)]
pub enum SyncAction {
    /// Create a directory and those above it.
    CreateDir { path: String },
    /// Write a file, replacing what it held.
    WriteFile { path: String, content: String },
    /// Run the version-control command with the arguments, in the
    /// directory where one is given.
    Git { dir: Option<String>, args: Vec<String> },
}

/// The mathematical form of an action.
pub enum Action {
    CreateDir { path: Seq<char> },
    WriteFile { path: Seq<char>, content: Seq<char> },
    Git { dir: Option<Seq<char>>, args: Seq<Seq<char>> },
}

impl View for SyncAction {
    type V = Action;

    open spec fn view(&self) -> Action {
        match self {
            SyncAction::CreateDir { path } => Action::CreateDir { path: path@ },
            SyncAction::WriteFile { path, content } => Action::WriteFile {
                path: path@,
                content: content@,
            },
            SyncAction::Git { dir, args } => Action::Git {
                dir: match dir {
                    Some(d) => Some(d@),
                    None => None,
                },
                args: string_texts(args@),
            },
        }
    }
}

/// The mathematical form of an optional action.
pub open spec fn action_view(a: Option<SyncAction>) -> Option<Action> {
    match a {
        Some(x) => Some(x@),
        None => None,
    }
}

/// How an action ended: whether it succeeded, and what it wrote to its
/// output and to its error output.
#[derive(Debug, Clone, PartialEq)]
pub struct Outcome {
    pub success: bool,
    pub stdout: String,
    pub stderr: String,
}

/// The mathematical form of an outcome.
pub struct Ending {
    pub success: bool,
    pub stdout: Seq<char>,
    pub stderr: Seq<char>,
}

impl View for Outcome {
    type V = Ending;

    open spec fn view(&self) -> Ending {
        Ending { success: self.success, stdout: self.stdout@, stderr: self.stderr@ }
    }
}

/// The branch at an index of the fallback order: `develop`, then `main`,
/// then `master`.
pub open spec fn branch(i: int) -> Seq<char> {
    if i == 0 {
        "develop"@
    } else if i == 1 {
        "main"@
    } else {
        "master"@
    }
}

/// How many branches the fallback order has.
pub const BRANCHES: u8 = 3;

/// The patterns of the files that a mirror holds.
pub open spec fn sparse_patterns() -> Seq<Seq<char>> {
    seq![
        "*.yml"@,
        "*.yaml"@,
        "**/azure-pipelines.yml"@,
        "**/azure-pipelines.yaml"@,
        "**/*.pipeline.yml"@,
        "**/*.pipeline.yaml"@,
        ".github/workflows/*.yml"@,
        ".github/workflows/*.yaml"@,
        ".gitlab-ci.yml"@,
    ]
}

/// What the pattern file of a mirror holds: one pattern on each line.
pub open spec fn sparse_content() -> Seq<char> {
    join(sparse_patterns(), seq!['\n'])
}

/// The remote of a repository with the credentials in it, and the
/// directory of its local mirror.
#[derive(Debug, Clone, PartialEq)]
pub struct GitManager {
    pub repo_url: String,
    pub repo_dir: String,
}

/// The short name of a repository: the last segment of its location,
/// without a repository suffix at its end.
pub open spec fn short_name(location: Seq<char>) -> Seq<char> {
    strip_suffix_all(after_last(location, '/'), ".git"@)
}

/// The short name of the repository at a location.
pub fn repo_short_name(location: &str) -> (r: String)
    ensures
        r@ == short_name(location@),
{
    let last = tail_after(&chars_of(location), '/');
    string_of(&without_suffix_all(&last, &chars_of(".git")))
}

/// The location with the credentials in it: what stands after the first
/// at sign, or else the location without its scheme, behind `https://`,
/// the user name, a colon, the token and an at sign.
pub open spec fn authenticated_url(
    username: Seq<char>,
    token: Seq<char>,
    location: Seq<char>,
) -> Seq<char> {
    let host = if contains(location, seq!['@']) {
        after_first(location, '@')
    } else {
        strip_prefix_all(location, "https://"@)
    };
    "https://"@ + username + seq![':'] + token + seq!['@'] + host
}

/// The directory of the mirror of a repository under a working directory:
/// the mirrors lie under `temp_repos`, each under the short name of its
/// repository.
pub open spec fn mirror_dir(work_dir: Seq<char>, location: Seq<char>) -> Seq<char> {
    work_dir + "/temp_repos/"@ + short_name(location)
}

impl GitManager {
    /// The directory that holds the pattern file.
    pub open spec fn info_dir(&self) -> Seq<char> {
        self.repo_dir@ + "/.git/info"@
    }

    /// The pattern file.
    pub open spec fn pattern_file(&self) -> Seq<char> {
        self.repo_dir@ + "/.git/info/sparse-checkout"@
    }

    /// The version-control command with the arguments, run in the mirror.
    pub open spec fn git(&self, args: Seq<Seq<char>>) -> Action {
        Action::Git { dir: Some(self.repo_dir@), args }
    }

    /// The action of a step of cloning.
    pub open spec fn clone_action(&self, step: CloneStep) -> Action {
        match step {
            CloneStep::CreateDir => Action::CreateDir { path: self.repo_dir@ },
            CloneStep::Init => self.git(seq!["init"@]),
            CloneStep::EnableSparse => self.git(
                seq!["config"@, "core.sparseCheckout"@, "true"@],
            ),
            CloneStep::CreateInfoDir => Action::CreateDir { path: self.info_dir() },
            CloneStep::WritePatterns => Action::WriteFile {
                path: self.pattern_file(),
                content: sparse_content(),
            },
            CloneStep::AddRemote => self.git(
                seq!["remote"@, "add"@, "origin"@, self.repo_url@],
            ),
            CloneStep::Fetch(i) => self.git(
                seq!["fetch"@, "--depth=1"@, "origin"@, branch(i as int)],
            ),
            CloneStep::Checkout(i) => self.git(
                seq!["checkout"@, "-b"@, branch(i as int), "origin/"@ + branch(i as int)],
            ),
        }
    }

    /// The action of a step of updating.
    pub open spec fn converge_action(&self, step: ConvergeStep) -> Action {
        match step {
            ConvergeStep::CurrentBranch => self.git(
                seq!["rev-parse"@, "--abbrev-ref"@, "HEAD"@],
            ),
            ConvergeStep::Checkout(i) => self.git(seq!["checkout"@, branch(i as int)]),
            ConvergeStep::EnableSparse => self.git(
                seq!["config"@, "core.sparseCheckout"@, "true"@],
            ),
            ConvergeStep::WritePatterns => Action::WriteFile {
                path: self.pattern_file(),
                content: sparse_content(),
            },
            ConvergeStep::Reset => self.git(seq!["reset"@, "--hard"@, "HEAD"@]),
            ConvergeStep::Pull => self.git(seq!["pull"@, "--force"@]),
        }
    }

    /// The action that a state awaits the outcome of, if any.
    pub open spec fn awaited(&self, state: SyncPhase) -> Option<Action> {
        match state {
            SyncPhase::Cloning(step) => Some(self.clone_action(step)),
            SyncPhase::Converging(step) => Some(self.converge_action(step)),
            _ => None,
        }
    }

    /// The first state of a synchronization: a missing mirror is cloned, an
    /// existing one is brought up to date in `Converge` mode and is ready
    /// as it is in the other modes.
    pub open spec fn first_state(mode: SyncMode, mirror_exists: bool) -> SyncPhase {
        if !mirror_exists {
            SyncPhase::Cloning(CloneStep::CreateDir)
        } else if mode == SyncMode::Converge {
            SyncPhase::Converging(ConvergeStep::CurrentBranch)
        } else {
            SyncPhase::Ready
        }
    }

    /// The state after a step of cloning ended.
    pub open spec fn after_clone_step(step: CloneStep, end: Ending) -> SyncPhase {
        match step {
            CloneStep::Fetch(i) => if end.success {
                SyncPhase::Cloning(CloneStep::Checkout(i))
            } else if i + 1 < BRANCHES {
                SyncPhase::Cloning(CloneStep::Fetch((i + 1) as u8))
            } else {
                SyncPhase::Failed(SyncFault::BranchNotFound)
            },
            _ => if !end.success {
                SyncPhase::Failed(SyncFault::Clone(end.stderr))
            } else {
                match step {
                    CloneStep::CreateDir => SyncPhase::Cloning(CloneStep::Init),
                    CloneStep::Init => SyncPhase::Cloning(CloneStep::EnableSparse),
                    CloneStep::EnableSparse => SyncPhase::Cloning(CloneStep::CreateInfoDir),
                    CloneStep::CreateInfoDir => SyncPhase::Cloning(CloneStep::WritePatterns),
                    CloneStep::WritePatterns => SyncPhase::Cloning(CloneStep::AddRemote),
                    CloneStep::AddRemote => SyncPhase::Cloning(CloneStep::Fetch(0)),
                    _ => SyncPhase::Ready,
                }
            },
        }
    }

    /// The state after a step of updating ended. The current branch is
    /// read from the output whatever the command's status; a detached
    /// mirror shows as `HEAD`.
    pub open spec fn after_converge_step(step: ConvergeStep, end: Ending) -> SyncPhase {
        match step {
            ConvergeStep::CurrentBranch => if trim(end.stdout) == "HEAD"@ {
                SyncPhase::Converging(ConvergeStep::Checkout(0))
            } else {
                SyncPhase::Converging(ConvergeStep::EnableSparse)
            },
            ConvergeStep::Checkout(i) => if end.success {
                SyncPhase::Converging(ConvergeStep::EnableSparse)
            } else if i + 1 < BRANCHES {
                SyncPhase::Converging(ConvergeStep::Checkout((i + 1) as u8))
            } else {
                SyncPhase::Failed(SyncFault::BranchNotFound)
            },
            _ => if !end.success {
                SyncPhase::Failed(SyncFault::Update(end.stderr))
            } else {
                match step {
                    ConvergeStep::EnableSparse => SyncPhase::Converging(
                        ConvergeStep::WritePatterns,
                    ),
                    ConvergeStep::WritePatterns => SyncPhase::Converging(ConvergeStep::Reset),
                    ConvergeStep::Reset => SyncPhase::Converging(ConvergeStep::Pull),
                    _ => SyncPhase::Ready,
                }
            },
        }
    }

    /// The state after the awaited action ended. A state that awaits
    /// nothing stays as it is.
    pub open spec fn next_state(state: SyncPhase, end: Ending) -> SyncPhase {
        match state {
            SyncPhase::Cloning(step) => Self::after_clone_step(step, end),
            SyncPhase::Converging(step) => Self::after_converge_step(step, end),
            _ => state,
        }
    }
}

/// The arguments of a command, from one to four.
fn args1(a: &str) -> (r: Vec<String>)
    ensures
        string_texts(r@) == seq![a@],
{
    let mut v: Vec<String> = Vec::new();
    v.push(a.to_owned());
    assert(string_texts(v@) == seq![a@]);
    v
}

fn args2(a: &str, b: &str) -> (r: Vec<String>)
    ensures
        string_texts(r@) == seq![a@, b@],
{
    let mut v: Vec<String> = Vec::new();
    v.push(a.to_owned());
    v.push(b.to_owned());
    assert(string_texts(v@) == seq![a@, b@]);
    v
}

fn args3(a: &str, b: &str, c: &str) -> (r: Vec<String>)
    ensures
        string_texts(r@) == seq![a@, b@, c@],
{
    let mut v: Vec<String> = Vec::new();
    v.push(a.to_owned());
    v.push(b.to_owned());
    v.push(c.to_owned());
    assert(string_texts(v@) == seq![a@, b@, c@]);
    v
}

fn args4(a: &str, b: &str, c: &str, d: &str) -> (r: Vec<String>)
    ensures
        string_texts(r@) == seq![a@, b@, c@, d@],
{
    let mut v: Vec<String> = Vec::new();
    v.push(a.to_owned());
    v.push(b.to_owned());
    v.push(c.to_owned());
    v.push(d.to_owned());
    assert(string_texts(v@) == seq![a@, b@, c@, d@]);
    v
}

/// The name of the branch at an index of the fallback order.
pub fn branch_name(i: u8) -> (r: String)
    ensures
        r@ == branch(i as int),
{
    if i == 0 {
        "develop".to_owned()
    } else if i == 1 {
        "main".to_owned()
    } else {
        "master".to_owned()
    }
}

/// What the pattern file of a mirror holds.
pub fn sparse_checkout_content() -> (r: String)
    ensures
        r@ == sparse_content(),
{
    let mut parts: Vec<Vec<char>> = Vec::new();
    parts.push(chars_of("*.yml"));
    parts.push(chars_of("*.yaml"));
    parts.push(chars_of("**/azure-pipelines.yml"));
    parts.push(chars_of("**/azure-pipelines.yaml"));
    parts.push(chars_of("**/*.pipeline.yml"));
    parts.push(chars_of("**/*.pipeline.yaml"));
    parts.push(chars_of(".github/workflows/*.yml"));
    parts.push(chars_of(".github/workflows/*.yaml"));
    parts.push(chars_of(".gitlab-ci.yml"));
    assert(texts(parts@) == sparse_patterns());
    let sep: Vec<char> = vec!['\n'];
    assert(sep@ == seq!['\n']);
    string_of(&joined(&parts, &sep))
}

impl GitManager {
    /// The manager of the mirror of a repository under a working
    /// directory, with the credentials put into the remote's location.
    pub fn new(username: String, token: String, repo_url: &str, work_dir: &str) -> (r: Self)
        ensures
            r.repo_url@ == authenticated_url(username@, token@, repo_url@),
            r.repo_dir@ == mirror_dir(work_dir@, repo_url@),
    {
        let location = chars_of(repo_url);
        let at: Vec<char> = vec!['@'];
        assert(at@ == seq!['@']);
        let host = if has_within(&location, &at) {
            tail_after_first(&location, '@')
        } else {
            without_prefix_all(&location, &chars_of("https://"))
        };
        let mut url = chars_of("https://");
        append(&mut url, &chars_of(username.as_str()));
        url.push(':');
        append(&mut url, &chars_of(token.as_str()));
        url.push('@');
        append(&mut url, &host);
        GitManager { repo_url: string_of(&url), repo_dir: get_local_path(work_dir, repo_url) }
    }

    /// The version-control command with the arguments, run in the mirror.
    fn git_here(&self, args: Vec<String>) -> (r: SyncAction)
        ensures
            r@ == self.git(string_texts(args@)),
    {
        SyncAction::Git { dir: Some(self.repo_dir.clone()), args }
    }

    /// The action of a step of cloning.
    pub fn clone_step_action(&self, step: CloneStep) -> (r: SyncAction)
        ensures
            r@ == self.clone_action(step),
    {
        match step {
            CloneStep::CreateDir => SyncAction::CreateDir { path: self.repo_dir.clone() },
            CloneStep::Init => self.git_here(args1("init")),
            CloneStep::EnableSparse => self.git_here(
                args3("config", "core.sparseCheckout", "true"),
            ),
            CloneStep::CreateInfoDir => SyncAction::CreateDir {
                path: join_two(self.repo_dir.as_str(), "/.git/info"),
            },
            CloneStep::WritePatterns => SyncAction::WriteFile {
                path: join_two(self.repo_dir.as_str(), "/.git/info/sparse-checkout"),
                content: sparse_checkout_content(),
            },
            CloneStep::AddRemote => self.git_here(
                args4("remote", "add", "origin", self.repo_url.as_str()),
            ),
            CloneStep::Fetch(i) => {
                let name = branch_name(i);
                self.git_here(args4("fetch", "--depth=1", "origin", name.as_str()))
            },
            CloneStep::Checkout(i) => {
                let name = branch_name(i);
                let upstream = join_two("origin/", name.as_str());
                self.git_here(args4("checkout", "-b", name.as_str(), upstream.as_str()))
            },
        }
    }

    /// The action of a step of updating.
    pub fn converge_step_action(&self, step: ConvergeStep) -> (r: SyncAction)
        ensures
            r@ == self.converge_action(step),
    {
        match step {
            ConvergeStep::CurrentBranch => self.git_here(
                args3("rev-parse", "--abbrev-ref", "HEAD"),
            ),
            ConvergeStep::Checkout(i) => {
                let name = branch_name(i);
                self.git_here(args2("checkout", name.as_str()))
            },
            ConvergeStep::EnableSparse => self.git_here(
                args3("config", "core.sparseCheckout", "true"),
            ),
            ConvergeStep::WritePatterns => SyncAction::WriteFile {
                path: join_two(self.repo_dir.as_str(), "/.git/info/sparse-checkout"),
                content: sparse_checkout_content(),
            },
            ConvergeStep::Reset => self.git_here(args3("reset", "--hard", "HEAD")),
            ConvergeStep::Pull => self.git_here(args2("pull", "--force")),
        }
    }

    /// The action that a state awaits the outcome of, if any.
    pub fn action(&self, state: &SyncState) -> (r: Option<SyncAction>)
        ensures
            action_view(r) == self.awaited(state@),
    {
        match state {
            SyncState::Cloning(step) => Some(self.clone_step_action(*step)),
            SyncState::Converging(step) => Some(self.converge_step_action(*step)),
            _ => None,
        }
    }

    /// Starts a synchronization: gives its first state and the action to
    /// perform, if any.
    pub fn begin(&self, mode: SyncMode, mirror_exists: bool) -> (r: (SyncState, Option<SyncAction>))
        ensures
            r.0@ == Self::first_state(mode, mirror_exists),
            action_view(r.1) == self.awaited(r.0@),
    {
        let state = if !mirror_exists {
            SyncState::Cloning(CloneStep::CreateDir)
        } else {
            match mode {
                SyncMode::Converge => SyncState::Converging(ConvergeStep::CurrentBranch),
                _ => SyncState::Ready,
            }
        };
        let action = self.action(&state);
        (state, action)
    }

    /// The state after a step of cloning ended.
    pub fn clone_step_done(step: CloneStep, outcome: &Outcome) -> (r: SyncState)
        ensures
            r@ == Self::after_clone_step(step, outcome@),
    {
        match step {
            CloneStep::Fetch(i) => {
                if outcome.success {
                    SyncState::Cloning(CloneStep::Checkout(i))
                } else if i < BRANCHES - 1 {
                    SyncState::Cloning(CloneStep::Fetch(i + 1))
                } else {
                    SyncState::Failed(SyncError::BranchNotFound)
                }
            },
            _ => {
                if !outcome.success {
                    SyncState::Failed(SyncError::Clone(outcome.stderr.clone()))
                } else {
                    match step {
                        CloneStep::CreateDir => SyncState::Cloning(CloneStep::Init),
                        CloneStep::Init => SyncState::Cloning(CloneStep::EnableSparse),
                        CloneStep::EnableSparse => SyncState::Cloning(CloneStep::CreateInfoDir),
                        CloneStep::CreateInfoDir => SyncState::Cloning(CloneStep::WritePatterns),
                        CloneStep::WritePatterns => SyncState::Cloning(CloneStep::AddRemote),
                        CloneStep::AddRemote => SyncState::Cloning(CloneStep::Fetch(0)),
                        _ => SyncState::Ready,
                    }
                }
            },
        }
    }

    /// The state after a step of updating ended.
    pub fn converge_step_done(step: ConvergeStep, outcome: &Outcome) -> (r: SyncState)
        ensures
            r@ == Self::after_converge_step(step, outcome@),
    {
        match step {
            ConvergeStep::CurrentBranch => {
                let current = trimmed(&chars_of(outcome.stdout.as_str()));
                if same_text(&current, &chars_of("HEAD")) {
                    SyncState::Converging(ConvergeStep::Checkout(0))
                } else {
                    SyncState::Converging(ConvergeStep::EnableSparse)
                }
            },
            ConvergeStep::Checkout(i) => {
                if outcome.success {
                    SyncState::Converging(ConvergeStep::EnableSparse)
                } else if i < BRANCHES - 1 {
                    SyncState::Converging(ConvergeStep::Checkout(i + 1))
                } else {
                    SyncState::Failed(SyncError::BranchNotFound)
                }
            },
            _ => {
                if !outcome.success {
                    SyncState::Failed(SyncError::Update(outcome.stderr.clone()))
                } else {
                    match step {
                        ConvergeStep::EnableSparse => SyncState::Converging(
                            ConvergeStep::WritePatterns,
                        ),
                        ConvergeStep::WritePatterns => SyncState::Converging(
                            ConvergeStep::Reset,
                        ),
                        ConvergeStep::Reset => SyncState::Converging(ConvergeStep::Pull),
                        _ => SyncState::Ready,
                    }
                }
            },
        }
    }

    /// Takes the outcome of the awaited action: gives the next state and
    /// the next action, if any.
    pub fn advance(&self, state: &SyncState, outcome: &Outcome) -> (r: (
        SyncState,
        Option<SyncAction>,
    ))
        ensures
            r.0@ == Self::next_state(state@, outcome@),
            action_view(r.1) == self.awaited(r.0@),
    {
        let next = match state {
            SyncState::Cloning(step) => Self::clone_step_done(*step, outcome),
            SyncState::Converging(step) => Self::converge_step_done(*step, outcome),
            SyncState::Absent => SyncState::Absent,
            SyncState::Ready => SyncState::Ready,
            SyncState::Failed(e) => SyncState::Failed(copy_error(e)),
        };
        let action = self.action(&next);
        (next, action)
    }

    /// Starts a synchronization that clones a missing mirror and brings an
    /// existing one up to date.
    pub fn ensure_repo_exists(&self, mirror_exists: bool) -> (r: (SyncState, Option<SyncAction>))
        ensures
            r.0@ == Self::first_state(SyncMode::Converge, mirror_exists),
            action_view(r.1) == self.awaited(r.0@),
    {
        self.begin(SyncMode::Converge, mirror_exists)
    }

    /// Starts a synchronization that clones a missing mirror and leaves an
    /// existing one as it is.
    pub fn ensure_repo_exists_new(&self, mirror_exists: bool) -> (r: (
        SyncState,
        Option<SyncAction>,
    ))
        ensures
            r.0@ == Self::first_state(SyncMode::CloneOnly, mirror_exists),
            action_view(r.1) == self.awaited(r.0@),
    {
        self.begin(SyncMode::CloneOnly, mirror_exists)
    }

    /// Starts a synchronization that clones a missing mirror and accepts
    /// an existing one unread.
    pub fn ensure_repo_exists_no_update(&self, mirror_exists: bool) -> (r: (
        SyncState,
        Option<SyncAction>,
    ))
        ensures
            r.0@ == Self::first_state(SyncMode::SkipIfPresent, mirror_exists),
            action_view(r.1) == self.awaited(r.0@),
    {
        self.begin(SyncMode::SkipIfPresent, mirror_exists)
    }

    /// The listing of the remote's branches: the probe that tells whether
    /// the remote can be reached with the credentials. It touches no
    /// mirror.
    pub open spec fn probe(&self) -> Action {
        Action::Git { dir: None, args: seq!["ls-remote"@, "--heads"@, self.repo_url@] }
    }

    /// The action that tests the connection to the remote.
    pub fn test_connection(&self) -> (r: SyncAction)
        ensures
            r@ == self.probe(),
    {
        SyncAction::Git { dir: None, args: args3("ls-remote", "--heads", self.repo_url.as_str()) }
    }
}

/// What the outcome of the connection test means: success, or a
/// connection error with the text that the command wrote.
pub open spec fn probe_result(end: Ending) -> Result<(), SyncFault> {
    if end.success {
        Ok(())
    } else {
        Err(SyncFault::Connection(end.stderr))
    }
}

/// Reads the outcome of the connection test.
pub fn connection_result(outcome: &Outcome) -> (r: Result<(), SyncError>)
    ensures
        match r {
            Ok(()) => probe_result(outcome@) == Ok::<(), SyncFault>(()),
            Err(e) => probe_result(outcome@) == Err::<(), SyncFault>(e@),
        },
{
    if outcome.success {
        Ok(())
    } else {
        Err(SyncError::Connection(outcome.stderr.clone()))
    }
}

/// The text that shows an error to a user: what failed, and for a failed
/// command the text that it wrote.
pub open spec fn fault_text(fault: SyncFault) -> Seq<char> {
    match fault {
        SyncFault::Connection(text) => "Failed to connect to repository: "@ + text,
        SyncFault::Clone(text) => "Failed to clone repository: "@ + text,
        SyncFault::BranchNotFound => "Failed to fetch repository: no default branch found"@,
        SyncFault::Update(text) => "Failed to update repository: "@ + text,
        SyncFault::ConfigurationMissing =>
            "Git credentials not found. Please set them first with --set-git-credentials"@,
    }
}

/// The text that shows an error to a user.
pub fn error_text(e: &SyncError) -> (r: String)
    ensures
        r@ == fault_text(e@),
{
    match e {
        SyncError::Connection(text) => join_two("Failed to connect to repository: ", text.as_str()),
        SyncError::Clone(text) => join_two("Failed to clone repository: ", text.as_str()),
        SyncError::BranchNotFound => "Failed to fetch repository: no default branch found".to_owned(),
        SyncError::Update(text) => join_two("Failed to update repository: ", text.as_str()),
        SyncError::ConfigurationMissing =>
            "Git credentials not found. Please set them first with --set-git-credentials".to_owned(),
    }
}

/// A copy of an error.
pub fn copy_error(e: &SyncError) -> (r: SyncError)
    ensures
        r == *e,
{
    match e {
        SyncError::Connection(t) => SyncError::Connection(t.clone()),
        SyncError::Clone(t) => SyncError::Clone(t.clone()),
        SyncError::BranchNotFound => SyncError::BranchNotFound,
        SyncError::Update(t) => SyncError::Update(t.clone()),
        SyncError::ConfigurationMissing => SyncError::ConfigurationMissing,
    }
}

/// The mode in which a repository is synchronized: a repository that is
/// new to the list is only cloned, one that is not to be updated is
/// accepted as it is, and any other is brought up to date.
pub fn choose_mode(is_new: bool, skip_update: bool) -> (r: SyncMode)
    ensures
        r == if is_new {
            SyncMode::CloneOnly
        } else if skip_update {
            SyncMode::SkipIfPresent
        } else {
            SyncMode::Converge
        },
{
    if is_new {
        SyncMode::CloneOnly
    } else if skip_update {
        SyncMode::SkipIfPresent
    } else {
        SyncMode::Converge
    }
}

/// The directory of the mirror of a repository under a working directory.
pub fn get_local_path(work_dir: &str, repo_url: &str) -> (r: String)
    ensures
        r@ == mirror_dir(work_dir@, repo_url@),
{
    let mut dir = chars_of(work_dir);
    append(&mut dir, &chars_of("/temp_repos/"));
    append(&mut dir, &chars_of(repo_short_name(repo_url).as_str()));
    string_of(&dir)
}

/// The state that a synchronization reaches from a state by the outcomes
/// of its actions, in order.
pub open spec fn run(state: SyncPhase, ends: Seq<Ending>) -> SyncPhase
    decreases ends.len(),
{
    if ends.len() == 0 {
        state
    } else {
        run(GitManager::next_state(state, ends[0]), ends.drop_first())
    }
}

/// The index of the branch that a state tries: that of a fetch while
/// cloning, that of a checkout while updating.
pub open spec fn attempt(state: SyncPhase) -> Option<int> {
    match state {
        SyncPhase::Cloning(CloneStep::Fetch(i)) => Some(i as int),
        SyncPhase::Converging(ConvergeStep::Checkout(i)) => Some(i as int),
        _ => None,
    }
}

/// The indices of the branches that a synchronization tries, in the order
/// in which it tries them, from a state on and by the given outcomes. The
/// last may still await its outcome.
pub open spec fn attempts(state: SyncPhase, ends: Seq<Ending>) -> Seq<int>
    decreases ends.len(),
{
    let here = match attempt(state) {
        Some(i) => seq![i],
        None => Seq::<int>::empty(),
    };
    if ends.len() == 0 {
        here
    } else {
        here + attempts(GitManager::next_state(state, ends[0]), ends.drop_first())
    }
}

/// Whether each try of a branch succeeded, in order, for the tries whose
/// outcome is among those given.
pub open spec fn attempt_results(state: SyncPhase, ends: Seq<Ending>) -> Seq<bool>
    decreases ends.len(),
{
    if ends.len() == 0 {
        Seq::<bool>::empty()
    } else {
        let here = match attempt(state) {
            Some(i) => seq![ends[0].success],
            None => Seq::<bool>::empty(),
        };
        here + attempt_results(GitManager::next_state(state, ends[0]), ends.drop_first())
    }
}

/// Whether a state comes before any try of a branch.
pub open spec fn before_attempts(state: SyncPhase) -> bool {
    match state {
        SyncPhase::Absent => false,
        SyncPhase::Cloning(step) => !(step is Fetch) && !(step is Checkout),
        SyncPhase::Converging(step) => step is CurrentBranch,
        _ => false,
    }
}

/// The tries from a state on go up the fallback order one by one from
/// `base`, and none follows a try that succeeded.
proof fn lemma_attempts_from(state: SyncPhase, ends: Seq<Ending>, base: int)
    requires
        before_attempts(state) ==> base == 0,
        attempt(state) matches Some(i) ==> i == base,
    ensures
        !before_attempts(state) && attempt(state) is None ==> attempts(state, ends).len() == 0,
        forall|k: int| 0 <= k < attempts(state, ends).len() ==> attempts(state, ends)[k] == base + k,
        forall|k: int| 0 < k < attempts(state, ends).len() ==> attempts(state, ends)[k] < BRANCHES,
        attempt_results(state, ends).len() <= attempts(state, ends).len(),
        forall|k: int|
            0 <= k < attempt_results(state, ends).len() && attempt_results(state, ends)[k]
                ==> attempts(state, ends).len() == k + 1,
    decreases ends.len(),
{
    if ends.len() > 0 {
        let next = GitManager::next_state(state, ends[0]);
        let rest = ends.drop_first();
        match attempt(state) {
            Some(i) => {
                if attempt(next) is Some {
                    lemma_attempts_from(next, rest, base + 1);
                } else {
                    lemma_attempts_from(next, rest, 0);
                }
                let t = attempts(state, ends);
                let r = attempt_results(state, ends);
                assert(t == seq![i] + attempts(next, rest));
                assert(r == seq![ends[0].success] + attempt_results(next, rest));
                assert forall|k: int| 0 <= k < t.len() implies t[k] == base + k by {
                    if k > 0 {
                        assert(t[k] == attempts(next, rest)[k - 1]);
                    }
                }
                assert forall|k: int| 0 < k < t.len() implies t[k] < BRANCHES by {
                    assert(t[k] == attempts(next, rest)[k - 1]);
                }
                assert forall|k: int| 0 <= k < r.len() && r[k] implies t.len() == k + 1 by {
                    if k > 0 {
                        assert(r[k] == attempt_results(next, rest)[k - 1]);
                    }
                }
            },
            None => {
                lemma_attempts_from(next, rest, 0);
                assert(attempts(state, ends) == attempts(next, rest));
                assert(attempt_results(state, ends) == attempt_results(next, rest));
            },
        }
    }
}

/// Branch fallback: whatever the outcomes, a synchronization tries the
/// branches in the order `develop`, `main`, `master`, each at most once
/// and none out of turn, and tries no further branch once one succeeded.
pub proof fn lemma_branch_fallback_order(mode: SyncMode, mirror_exists: bool, ends: Seq<Ending>)
    ensures
        attempts(GitManager::first_state(mode, mirror_exists), ends).len() <= BRANCHES,
        forall|k: int|
            0 <= k < attempts(GitManager::first_state(mode, mirror_exists), ends).len()
                ==> attempts(GitManager::first_state(mode, mirror_exists), ends)[k] == k,
        forall|k: int|
            0 <= k < attempt_results(GitManager::first_state(mode, mirror_exists), ends).len()
                && attempt_results(GitManager::first_state(mode, mirror_exists), ends)[k]
                ==> attempts(GitManager::first_state(mode, mirror_exists), ends).len() == k + 1,
{
    let start = GitManager::first_state(mode, mirror_exists);
    lemma_attempts_from(start, ends, 0);
    let t = attempts(start, ends);
    if t.len() > BRANCHES {
        assert(t[3] == 3);
        assert(t[3] < BRANCHES);
    }
}

/// A synchronization that is ready or has failed stays as it is.
pub proof fn lemma_final_states_stay(state: SyncPhase, ends: Seq<Ending>)
    requires
        state is Ready || state is Failed,
    ensures
        run(state, ends) == state,
    decreases ends.len(),
{
    if ends.len() > 0 {
        lemma_final_states_stay(state, ends.drop_first());
    }
}

/// Whether a state belongs to the update of an existing mirror, or ends
/// one.
pub open spec fn within_update(state: SyncPhase) -> bool {
    state is Converging || state is Ready || state is Failed
}

/// Bringing an existing mirror up to date never takes a step of cloning:
/// whatever the outcomes, the mirror is not created anew, and the pattern
/// file is rewritten with the same content each time.
pub proof fn lemma_update_never_clones(ends: Seq<Ending>)
    ensures
        within_update(run(GitManager::first_state(SyncMode::Converge, true), ends)),
{
    lemma_update_stays(GitManager::first_state(SyncMode::Converge, true), ends);
}

proof fn lemma_update_stays(state: SyncPhase, ends: Seq<Ending>)
    requires
        within_update(state),
    ensures
        within_update(run(state, ends)),
    decreases ends.len(),
{
    if ends.len() > 0 {
        lemma_update_stays(GitManager::next_state(state, ends[0]), ends.drop_first());
    }
}

} // verus!
