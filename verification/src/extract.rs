//! Finding task declarations in the text of pipeline files.
//!
//! A pipeline file is read line by line, never as a structured document:
//! only the text of a line and which lines follow it matter.

use crate::gitversion::GitVersionImplementation;
use crate::pattern::{all_matches, regex_compiles, regex_matches, Groups, PatternError};
use crate::text::{
    chars_of, contains, has_prefix, has_within, lines, same_text, split, split_lines,
    split_on, starts_with, string_of, string_texts, stripped, texts, trim, trim_char, trimmed,
    CharSet,
};
use vstd::prelude::*;

verus! {

/// How many lines after a declaration are searched for its specification.
pub const LOOKAHEAD: usize = 10;

/// Whether a line, once trimmed, holds a specification field.
pub open spec fn mentions_spec(line: Seq<char>) -> bool {
    contains(trim(line), "versionSpec:"@)
}

/// Whether a line, once trimmed, holds a task declaration marker.
pub open spec fn mentions_task(line: Seq<char>) -> bool {
    contains(trim(line), "task:"@)
}

/// The value of the specification field of a line: what stands between the
/// first colon and the next, trimmed and with enclosing single, then double
/// quotes removed.
pub open spec fn spec_value(line: Seq<char>) -> Seq<char> {
    let parts = split_on(trim(line), ':');
    let raw = if parts.len() > 1 {
        parts[1]
    } else {
        Seq::<char>::empty()
    };
    trim_char(trim_char(trim(raw), '\''), '"')
}

/// The specification that a run of lines gives when read from its start:
/// that of the first line that holds one, unless a line before it holds a
/// task marker.
pub open spec fn spec_in_window(window: Seq<Seq<char>>) -> Option<Seq<char>>
    decreases window.len(),
{
    if window.len() == 0 {
        None
    } else if mentions_spec(window[0]) {
        Some(spec_value(window[0]))
    } else if mentions_task(window[0]) {
        None
    } else {
        spec_in_window(window.drop_first())
    }
}

/// The lines that are searched after line `i`: the next ten, or as many as
/// there are.
pub open spec fn lookahead_window(lines: Seq<Seq<char>>, i: int) -> Seq<Seq<char>> {
    let from = if i + 1 < lines.len() {
        i + 1
    } else {
        lines.len() as int
    };
    let to = if i + 1 + LOOKAHEAD < lines.len() {
        i + 1 + LOOKAHEAD
    } else {
        lines.len() as int
    };
    lines.subrange(from, to)
}

/// The specification that belongs to a declaration on line `i`.
pub open spec fn lookahead(lines: Seq<Seq<char>>, i: int) -> Option<Seq<char>> {
    spec_in_window(lookahead_window(lines, i))
}

/// The text that an optional character vector holds.
pub open spec fn text_of(v: Option<Vec<char>>) -> Option<Seq<char>> {
    match v {
        Some(t) => Some(t@),
        None => None,
    }
}

/// The value of the specification field of a trimmed line.
fn read_spec_value(line: &Vec<char>) -> (r: Vec<char>)
    requires
        line@ == trim(line@),
    ensures
        r@ == spec_value(line@),
{
    let parts = split(line, ':');
    assert(texts(parts@).len() == parts@.len());
    let raw: Vec<char> = if parts.len() > 1 {
        assert(texts(parts@)[1] == parts@[1]@);
        trimmed(&parts[1])
    } else {
        Vec::new()
    };
    assert(raw@ == trim(
        if split_on(line@, ':').len() > 1 {
            split_on(line@, ':')[1]
        } else {
            Seq::<char>::empty()
        },
    )) by {
        assert(trim(Seq::<char>::empty()) == Seq::<char>::empty());
    }
    let unquoted = stripped(&raw, &CharSet::Only('\''));
    stripped(&unquoted, &CharSet::Only('"'))
}

/// Searches the lines after line `i` for the specification of a
/// declaration on that line.
pub fn find_version_spec(lines: &Vec<Vec<char>>, i: usize) -> (r: Option<Vec<char>>)
    ensures
        text_of(r) == lookahead(texts(lines@), i as int),
{
    let n = lines.len();
    let ghost all = texts(lines@);
    if i >= n {
        assert(lookahead_window(all, i as int).len() == 0);
        return None;
    }
    let from = i + 1;
    let to = if n - from > LOOKAHEAD {
        from + LOOKAHEAD
    } else {
        n
    };
    let ghost window = lookahead_window(all, i as int);
    assert(window == all.subrange(from as int, to as int));
    let mut k: usize = from;
    while k < to
        invariant
            from <= k <= to <= n,
            n == lines.len(),
            all == texts(lines@),
            window == all.subrange(from as int, to as int),
            window == lookahead_window(all, i as int),
            spec_in_window(window) == spec_in_window(all.subrange(k as int, to as int)),
        decreases to - k,
    {
        let ghost rest = all.subrange(k as int, to as int);
        assert(rest[0] == lines@[k as int]@);
        assert(rest.drop_first() == all.subrange(k + 1, to as int));
        let line = trimmed(&lines[k]);
        proof {
            lemma_trim_idempotent(lines@[k as int]@);
        }
        if has_within(&line, &chars_of("versionSpec:")) {
            return Some(read_spec_value(&line));
        }
        if has_within(&line, &chars_of("task:")) {
            return None;
        }
        k = k + 1;
    }
    None
}

/// Trimming a trimmed text changes nothing.
pub proof fn lemma_trim_idempotent(s: Seq<char>)
    ensures
        trim(trim(s)) == trim(s),
{
    crate::text::lemma_strip_idempotent(s, CharSet::Space);
}

/// The search never reads beyond the tenth line after the declaration: two
/// files that have equally many of the ten lines after line `i`, and agree
/// on them, give the same specification.
pub proof fn lemma_lookahead_is_bounded(a: Seq<Seq<char>>, b: Seq<Seq<char>>, i: int)
    requires
        0 <= i,
        lookahead_window(a, i).len() == lookahead_window(b, i).len(),
        forall|j: int| i < j <= i + LOOKAHEAD && j < a.len() ==> a[j] == b[j],
    ensures
        lookahead(a, i) == lookahead(b, i),
{
    let wa = lookahead_window(a, i);
    let wb = lookahead_window(b, i);
    assert forall|j: int| 0 <= j < wa.len() implies wa[j] == wb[j] by {
        assert(wa[j] == a[i + 1 + j]);
        assert(wb[j] == b[i + 1 + j]);
    }
    assert(wa == wb);
}

/// The search never crosses the next task marker: two runs of lines that
/// agree up to and including a line with a task marker give the same
/// specification, whatever follows that line.
pub proof fn lemma_window_stops_at_task(a: Seq<Seq<char>>, b: Seq<Seq<char>>, k: int)
    requires
        0 <= k < a.len(),
        k < b.len(),
        forall|j: int| 0 <= j <= k ==> a[j] == b[j],
        mentions_task(a[k]),
    ensures
        spec_in_window(a) == spec_in_window(b),
    decreases k,
{
    if mentions_spec(a[0]) {
    } else if mentions_task(a[0]) {
    } else {
        assert(k > 0);
        let ta = a.drop_first();
        let tb = b.drop_first();
        assert forall|j: int| 0 <= j <= k - 1 implies ta[j] == tb[j] by {
            assert(ta[j] == a[j + 1]);
            assert(tb[j] == b[j + 1]);
        }
        lemma_window_stops_at_task(ta, tb, k - 1);
    }
}

/// The search never crosses the next task marker: where line `i + k` of a
/// file, within the ten lines after line `i`, holds a task marker, a file
/// that agrees with it from line `i + 1` to line `i + k` gives the same
/// specification.
pub proof fn lemma_lookahead_stops_at_task(a: Seq<Seq<char>>, b: Seq<Seq<char>>, i: int, k: int)
    requires
        0 <= i,
        1 <= k <= LOOKAHEAD,
        i + k < a.len(),
        i + k < b.len(),
        forall|j: int| i < j <= i + k ==> a[j] == b[j],
        mentions_task(a[i + k]),
    ensures
        lookahead(a, i) == lookahead(b, i),
{
    let wa = lookahead_window(a, i);
    let wb = lookahead_window(b, i);
    assert forall|j: int| 0 <= j <= k - 1 implies wa[j] == wb[j] by {
        assert(wa[j] == a[i + 1 + j]);
        assert(wb[j] == b[i + 1 + j]);
    }
    assert(wa[k - 1] == a[i + k]);
    lemma_window_stops_at_task(wa, wb, k - 1);
}

/// One occurrence of a task in a pipeline file: the task's name and
/// declared version, where it was found, and for the setup step of the
/// versioning tool the specification found after it.
#[derive(Debug, Clone, PartialEq)]
pub struct TaskInvocation {
    pub repo_name: String,
    pub task_name: String,
    pub version: String,
    pub file_path: String,
    pub spec: Option<String>,
}

/// The mathematical form of a task invocation.
pub struct Invocation {
    pub repo: Seq<char>,
    pub task: Seq<char>,
    pub version: Seq<char>,
    pub file: Seq<char>,
    pub spec: Option<Seq<char>>,
}

impl View for TaskInvocation {
    type V = Invocation;

    open spec fn view(&self) -> Invocation {
        Invocation {
            repo: self.repo_name@,
            task: self.task_name@,
            version: self.version@,
            file: self.file_path@,
            spec: match self.spec {
                Some(s) => Some(s@),
                None => None,
            },
        }
    }
}

impl TaskInvocation {
    /// A copy of this invocation.
    pub fn duplicate(&self) -> (r: Self)
        ensures
            r == *self,
    {
        TaskInvocation {
            repo_name: self.repo_name.clone(),
            task_name: self.task_name.clone(),
            version: self.version.clone(),
            file_path: self.file_path.clone(),
            spec: match &self.spec {
                Some(s) => Some(s.clone()),
                None => None,
            },
        }
    }
}

/// The mathematical forms of a list of invocations.
pub open spec fn invocation_views(v: Seq<TaskInvocation>) -> Seq<Invocation> {
    Seq::new(v.len(), |i: int| v[i]@)
}

/// The pattern of a task declaration: the marker, a name of word
/// characters and slashes, an at sign, and a version of digits.
pub open spec fn task_pattern() -> Seq<char> {
    "task:\\s*([\\w/]+)@(\\d+)"@
}

/// The name of the setup step of the versioning tool.
pub open spec fn setup_task() -> Seq<char> {
    "gitversion/setup"@
}

/// The name of the execute step of the versioning tool.
pub open spec fn execute_task() -> Seq<char> {
    "gitversion/execute"@
}

/// Whether a trimmed line is a comment.
pub open spec fn is_comment(line: Seq<char>) -> bool {
    starts_with(line, "#"@) || starts_with(line, "//"@)
}

/// The name and version that one match of the task pattern declares: its
/// first and second group, where both took part.
pub open spec fn declared_by(groups: Groups) -> Option<(Seq<char>, Seq<char>)> {
    if groups.len() > 2 && groups[1] is Some && groups[2] is Some {
        Some((groups[1]->0, groups[2]->0))
    } else {
        None
    }
}

/// The name and version that the first match declares, if there is one.
pub open spec fn declared(found: Seq<Groups>) -> Option<(Seq<char>, Seq<char>)> {
    if found.len() > 0 {
        declared_by(found[0])
    } else {
        None
    }
}

/// The texts of an optional pair of strings.
pub open spec fn pair_text(p: Option<(String, String)>) -> Option<(Seq<char>, Seq<char>)> {
    match p {
        Some((a, b)) => Some((a@, b@)),
        None => None,
    }
}

/// The name and version that one match declares.
pub fn declaration_in(groups: &Vec<Option<String>>) -> (r: Option<(String, String)>)
    ensures
        pair_text(r) == declared_by(groups.deep_view()),
{
    if groups.len() <= 2 {
        return None;
    }
    assert(groups.deep_view()[1] == groups@[1].deep_view());
    assert(groups.deep_view()[2] == groups@[2].deep_view());
    match (&groups[1], &groups[2]) {
        (Some(name), Some(version)) => Some((name.clone(), version.clone())),
        _ => None,
    }
}

/// The name and version that the first of the matches declares.
pub fn declaration_of(found: &Vec<Vec<Option<String>>>) -> (r: Option<(String, String)>)
    ensures
        pair_text(r) == declared(found.deep_view()),
{
    if found.len() == 0 {
        return None;
    }
    assert(found.deep_view()[0] == found@[0].deep_view());
    declaration_in(&found[0])
}

/// What a line of a file declares: nothing where the trimmed line is a
/// comment, else what the first match of the task pattern in the trimmed
/// line declares.
pub open spec fn line_declaration(line: Seq<char>) -> Option<(Seq<char>, Seq<char>)> {
    let t = trim(line);
    if is_comment(t) {
        None
    } else {
        declared(regex_matches(task_pattern(), t))
    }
}

/// The invocation that line `i` of a file gives, if any. The setup step of
/// the versioning tool carries the specification found after it.
pub open spec fn invocation_at(
    repo: Seq<char>,
    file: Seq<char>,
    lines: Seq<Seq<char>>,
    i: int,
) -> Option<Invocation> {
    match line_declaration(lines[i]) {
        None => None,
        Some((name, version)) => Some(
            Invocation {
                repo,
                task: name,
                version,
                file,
                spec: if name == setup_task() {
                    lookahead(lines, i)
                } else {
                    None
                },
            },
        ),
    }
}

/// The invocations that the first `n` lines of a file give, in order.
pub open spec fn invocations_upto(
    repo: Seq<char>,
    file: Seq<char>,
    lines: Seq<Seq<char>>,
    n: int,
) -> Seq<Invocation>
    decreases n,
{
    if n <= 0 {
        Seq::<Invocation>::empty()
    } else {
        let before = invocations_upto(repo, file, lines, n - 1);
        match invocation_at(repo, file, lines, n - 1) {
            Some(x) => before.push(x),
            None => before,
        }
    }
}

/// The invocations that a file gives.
pub open spec fn file_invocations(repo: Seq<char>, file: Seq<char>, content: Seq<char>) -> Seq<
    Invocation,
> {
    invocations_upto(repo, file, lines(content), lines(content).len() as int)
}

/// Whether some line is not a comment, so that the pattern is tried on it.
pub open spec fn scans_a_line(lines: Seq<Seq<char>>) -> bool {
    exists|i: int| 0 <= i < lines.len() && !is_comment(#[trigger] trim(lines[i]))
}

/// Whether a trimmed line is a comment.
pub fn line_is_comment(line: &Vec<char>) -> (r: bool)
    ensures
        r == is_comment(line@),
{
    has_prefix(line, &chars_of("#")) || has_prefix(line, &chars_of("//"))
}

/// A string for an optional text.
fn optional_string(v: Option<Vec<char>>) -> (r: Option<String>)
    ensures
        match r {
            Some(s) => text_of(v) == Some(s@),
            None => v is None,
        },
{
    match v {
        Some(t) => Some(string_of(&t)),
        None => None,
    }
}

/// Finds the task invocations in the content of one pipeline file of a
/// repository.
///
/// The call fails only where the task pattern does not compile and the
/// file has a line on which it would be tried.
pub fn extract_invocations(repo_name: &str, file_path: &str, content: &str) -> (r: Result<
    Vec<TaskInvocation>,
    PatternError,
>)
    ensures
        r is Err <==> !regex_compiles(task_pattern()) && scans_a_line(lines(content@)),
        r matches Ok(found) ==> invocation_views(found@) == file_invocations(
            repo_name@,
            file_path@,
            content@,
        ),
{
    let all = split_lines(&chars_of(content));
    let mut out: Vec<TaskInvocation> = Vec::new();
    let mut i: usize = 0;
    while i < all.len()
        invariant
            i <= all.len(),
            texts(all@) == lines(content@),
            invocation_views(out@) == invocations_upto(
                repo_name@,
                file_path@,
                texts(all@),
                i as int,
            ),
            forall|j: int|
                0 <= j < i ==> is_comment(#[trigger] trim(texts(all@)[j])) || regex_compiles(
                    task_pattern(),
                ),
        decreases all.len() - i,
    {
        assert(texts(all@)[i as int] == all@[i as int]@);
        let line = trimmed(&all[i]);
        if !line_is_comment(&line) {
            let haystack = string_of(&line);
            match all_matches("task:\\s*([\\w/]+)@(\\d+)", haystack.as_str()) {
                Err(e) => {
                    assert(!is_comment(trim(lines(content@)[i as int])));
                    return Err(e);
                },
                Ok(found) => {
                    match declaration_of(&found) {
                        Some((name, version)) => {
                            let spec = if same_text(
                                &chars_of(name.as_str()),
                                &chars_of("gitversion/setup"),
                            ) {
                                optional_string(find_version_spec(&all, i))
                            } else {
                                None
                            };
                            let item = TaskInvocation {
                                repo_name: repo_name.to_owned(),
                                task_name: name,
                                version,
                                file_path: file_path.to_owned(),
                                spec,
                            };
                            let ghost before = invocation_views(out@);
                            out.push(item);
                            assert(invocation_views(out@) == before.push(item@));
                        },
                        None => {},
                    }
                },
            }
        }
        i = i + 1;
    }
    Ok(out)
}

/// The texts of a list of pairs of strings.
pub open spec fn pair_texts(v: Seq<(String, String)>) -> Seq<(Seq<char>, Seq<char>)> {
    Seq::new(v.len(), |i: int| (v[i].0@, v[i].1@))
}

/// The names and versions that the matches declare, in order; a match
/// whose groups did not both take part declares nothing.
pub open spec fn declarations(found: Seq<Groups>) -> Seq<(Seq<char>, Seq<char>)>
    decreases found.len(),
{
    if found.len() == 0 {
        Seq::<(Seq<char>, Seq<char>)>::empty()
    } else {
        let before = declarations(found.drop_last());
        match declared_by(found.last()) {
            Some(d) => before.push(d),
            None => before,
        }
    }
}

/// The names and versions that the matches declare.
pub fn declarations_of(found: &Vec<Vec<Option<String>>>) -> (r: Vec<(String, String)>)
    ensures
        pair_texts(r@) == declarations(found.deep_view()),
{
    let mut out: Vec<(String, String)> = Vec::new();
    let ghost all = found.deep_view();
    let mut i: usize = 0;
    while i < found.len()
        invariant
            i <= found.len(),
            all == found.deep_view(),
            pair_texts(out@) == declarations(all.take(i as int)),
        decreases found.len() - i,
    {
        assert(all.take(i + 1).drop_last() == all.take(i as int));
        assert(all.take(i + 1).last() == found@[i as int].deep_view());
        match declaration_in(&found[i]) {
            Some(d) => {
                let ghost before = pair_texts(out@);
                out.push(d);
                assert(pair_texts(out@) == before.push((d.0@, d.1@)));
            },
            None => {},
        }
        i = i + 1;
    }
    assert(all.take(found.len() as int) == all);
    out
}

/// Finds every task declaration in a text taken as a whole, comments and
/// line ends not considered.
pub fn extract_declarations(content: &str) -> (r: Result<Vec<(String, String)>, PatternError>)
    ensures
        r is Ok <==> regex_compiles(task_pattern()),
        r matches Ok(found) ==> pair_texts(found@) == declarations(
            regex_matches(task_pattern(), content@),
        ),
{
    match all_matches("task:\\s*([\\w/]+)@(\\d+)", content) {
        Ok(found) => Ok(declarations_of(&found)),
        Err(e) => Err(e),
    }
}

/// The pattern that finds the versions of the task of the given name.
pub open spec fn search_pattern(task_name: Seq<char>) -> Seq<char> {
    "task:\\s*"@ + task_name + "\\s*@(\\d+)"@
}

/// The first group of each match in which it took part, in order.
pub open spec fn first_groups(found: Seq<Groups>) -> Seq<Seq<char>>
    decreases found.len(),
{
    if found.len() == 0 {
        Seq::<Seq<char>>::empty()
    } else {
        let before = first_groups(found.drop_last());
        let last = found.last();
        if last.len() > 1 && last[1] is Some {
            before.push(last[1]->0)
        } else {
            before
        }
    }
}

/// The first group of each match.
pub fn first_groups_of(found: &Vec<Vec<Option<String>>>) -> (r: Vec<String>)
    ensures
        string_texts(r@) == first_groups(found.deep_view()),
{
    let mut out: Vec<String> = Vec::new();
    let ghost all = found.deep_view();
    let mut i: usize = 0;
    while i < found.len()
        invariant
            i <= found.len(),
            all == found.deep_view(),
            string_texts(out@) == first_groups(all.take(i as int)),
        decreases found.len() - i,
    {
        assert(all.take(i + 1).drop_last() == all.take(i as int));
        assert(all.take(i + 1).last() == found@[i as int].deep_view());
        let groups = &found[i];
        if groups.len() > 1 {
            assert(groups.deep_view()[1] == groups@[1].deep_view());
            match &groups[1] {
                Some(version) => {
                    let ghost before = string_texts(out@);
                    let copy = version.clone();
                    out.push(copy);
                    assert(string_texts(out@) == before.push(copy@));
                },
                None => {},
            }
        }
        i = i + 1;
    }
    assert(all.take(found.len() as int) == all);
    out
}

/// Finds the declared versions of the task of the given name in a text
/// taken as a whole. The name becomes part of the pattern as it stands.
pub fn search_task_versions(content: &str, task_name: &str) -> (r: Result<
    Vec<String>,
    PatternError,
>)
    ensures
        r is Ok <==> regex_compiles(search_pattern(task_name@)),
        r matches Ok(found) ==> string_texts(found@) == first_groups(
            regex_matches(search_pattern(task_name@), content@),
        ),
{
    let mut pattern = chars_of("task:\\s*");
    crate::text::append(&mut pattern, &chars_of(task_name));
    crate::text::append(&mut pattern, &chars_of("\\s*@(\\d+)"));
    let pattern = string_of(&pattern);
    match all_matches(pattern.as_str(), content) {
        Ok(found) => Ok(first_groups_of(&found)),
        Err(e) => Err(e),
    }
}

/// What one file uses of the versioning tool: the version of its setup
/// step with the specification found after it, and the version of its
/// execute step.
pub struct ToolUse {
    pub setup: Option<(Seq<char>, Option<Seq<char>>)>,
    pub execute: Option<Seq<char>>,
}

/// The second piece of a split, or the empty text where there is none.
pub open spec fn second_piece(pieces: Seq<Seq<char>>) -> Seq<char> {
    if pieces.len() > 1 {
        pieces[1]
    } else {
        Seq::<char>::empty()
    }
}

/// What a line says of the versioning tool: the step's name and version,
/// for a line that is no comment and holds the tool's marker. The name
/// stands between the first colon and the at sign, the version after the
/// at sign up to the next; both are trimmed.
pub open spec fn tool_line(line: Seq<char>) -> Option<(Seq<char>, Seq<char>)> {
    let t = trim(line);
    if is_comment(t) || !contains(t, "task: gitversion/"@) {
        None
    } else {
        let by_at = split_on(t, '@');
        Some((trim(second_piece(split_on(by_at[0], ':'))), trim(second_piece(by_at))))
    }
}

/// What the first `n` lines of a file use of the versioning tool: for each
/// step, the last line that names it decides.
pub open spec fn tool_use_upto(lines: Seq<Seq<char>>, n: int) -> ToolUse
    decreases n,
{
    if n <= 0 {
        ToolUse { setup: None, execute: None }
    } else {
        let before = tool_use_upto(lines, n - 1);
        match tool_line(lines[n - 1]) {
            Some((name, version)) => if name == setup_task() {
                ToolUse { setup: Some((version, lookahead(lines, n - 1))), execute: before.execute }
            } else if name == execute_task() {
                ToolUse { setup: before.setup, execute: Some(version) }
            } else {
                before
            },
            None => before,
        }
    }
}

/// What a file uses of the versioning tool.
pub open spec fn tool_use(content: Seq<char>) -> ToolUse {
    tool_use_upto(lines(content), lines(content).len() as int)
}

/// The mathematical form of what an implementation record holds.
pub open spec fn recorded_use(found: GitVersionImplementation) -> ToolUse {
    ToolUse {
        setup: match found.setup {
            Some((version, spec)) => Some(
                (
                    version@,
                    match spec {
                        Some(s) => Some(s@),
                        None => None,
                    },
                ),
            ),
            None => None,
        },
        execute: match found.execute {
            Some(version) => Some(version@),
            None => None,
        },
    }
}

/// Reads what a trimmed line says of the versioning tool.
fn read_tool_line(t: &Vec<char>) -> (r: Option<(Vec<char>, Vec<char>)>)
    requires
        t@ == trim(t@),
    ensures
        match r {
            Some((name, version)) => tool_line(t@) == Some((name@, version@)),
            None => tool_line(t@) is None,
        },
{
    if line_is_comment(t) || !has_within(t, &chars_of("task: gitversion/")) {
        return None;
    }
    let by_at = split(t, '@');
    assert(texts(by_at@).len() == by_at@.len());
    assert(by_at.len() > 0) by {
        crate::text::lemma_split_has_a_piece(t@, '@');
    }
    assert(texts(by_at@)[0] == by_at@[0]@);
    let head = split(&by_at[0], ':');
    assert(texts(head@).len() == head@.len());
    let name = if head.len() > 1 {
        assert(texts(head@)[1] == head@[1]@);
        trimmed(&head[1])
    } else {
        Vec::new()
    };
    let version = if by_at.len() > 1 {
        assert(texts(by_at@)[1] == by_at@[1]@);
        trimmed(&by_at[1])
    } else {
        Vec::new()
    };
    assert(trim(Seq::<char>::empty()) == Seq::<char>::empty());
    Some((name, version))
}

/// Records what the content of one pipeline file uses of the versioning
/// tool.
pub fn scan_gitversion(file_path: &str, content: &str) -> (r: GitVersionImplementation)
    ensures
        r.file_path@ == file_path@,
        recorded_use(r) == tool_use(content@),
{
    let all = split_lines(&chars_of(content));
    let mut found = GitVersionImplementation {
        setup: None,
        execute: None,
        file_path: file_path.to_owned(),
    };
    let mut i: usize = 0;
    while i < all.len()
        invariant
            i <= all.len(),
            texts(all@) == lines(content@),
            found.file_path@ == file_path@,
            recorded_use(found) == tool_use_upto(texts(all@), i as int),
        decreases all.len() - i,
    {
        assert(texts(all@)[i as int] == all@[i as int]@);
        let t = trimmed(&all[i]);
        proof {
            lemma_trim_idempotent(all@[i as int]@);
        }
        match read_tool_line(&t) {
            Some((name, version)) => {
                if same_text(&name, &chars_of("gitversion/setup")) {
                    let spec = optional_string(find_version_spec(&all, i));
                    found.setup = Some((string_of(&version), spec));
                } else if same_text(&name, &chars_of("gitversion/execute")) {
                    found.execute = Some(string_of(&version));
                }
            },
            None => {},
        }
        i = i + 1;
    }
    found
}

/// The lines among the first `n` that hold the query, each with its number
/// counted from one and its trimmed text.
pub open spec fn hits_upto(lines: Seq<Seq<char>>, query: Seq<char>, n: int) -> Seq<
    (int, Seq<char>),
>
    decreases n,
{
    if n <= 0 {
        Seq::<(int, Seq<char>)>::empty()
    } else {
        let before = hits_upto(lines, query, n - 1);
        if contains(lines[n - 1], query) {
            before.push((n, trim(lines[n - 1])))
        } else {
            before
        }
    }
}

/// The mathematical form of a list of numbered lines.
pub open spec fn hit_views(v: Seq<(usize, String)>) -> Seq<(int, Seq<char>)> {
    Seq::new(v.len(), |i: int| (v[i].0 as int, v[i].1@))
}

/// Finds the lines of a text that hold the query.
pub fn find_lines_containing(content: &str, query: &str) -> (r: Vec<(usize, String)>)
    ensures
        hit_views(r@) == hits_upto(lines(content@), query@, lines(content@).len() as int),
{
    let all = split_lines(&chars_of(content));
    let wanted = chars_of(query);
    let mut out: Vec<(usize, String)> = Vec::new();
    let mut i: usize = 0;
    while i < all.len()
        invariant
            i <= all.len(),
            texts(all@) == lines(content@),
            wanted@ == query@,
            hit_views(out@) == hits_upto(texts(all@), query@, i as int),
        decreases all.len() - i,
    {
        assert(texts(all@)[i as int] == all@[i as int]@);
        if has_within(&all[i], &wanted) {
            let hit = (i + 1, string_of(&trimmed(&all[i])));
            let ghost before = hit_views(out@);
            out.push(hit);
            assert(hit_views(out@) == before.push((hit.0 as int, hit.1@)));
        }
        i = i + 1;
    }
    out
}

/// Whether a file name has the extension `yml` or `yaml`: it ends with a
/// dot and one of the two, and more than that stands before the dot.
pub open spec fn is_yaml_name(name: Seq<char>) -> bool {
    ||| crate::text::ends_with(name, ".yml"@) && name.len() > ".yml"@.len()
    ||| crate::text::ends_with(name, ".yaml"@) && name.len() > ".yaml"@.len()
}

/// Whether a path names a pipeline file: its last segment has a YAML
/// extension, and `pipeline` stands somewhere in the path.
pub open spec fn is_pipeline_path(path: Seq<char>) -> bool {
    is_yaml_name(crate::text::after_last(path, '/')) && contains(path, "pipeline"@)
}

/// Whether a path, with `/` between its segments, names a pipeline file.
pub fn is_pipeline_file(path: &str) -> (r: bool)
    ensures
        r == is_pipeline_path(path@),
{
    let full = chars_of(path);
    let name = crate::text::tail_after(&full, '/');
    let yml = chars_of(".yml");
    let yaml = chars_of(".yaml");
    let by_name = (crate::text::has_suffix(&name, &yml) && name.len() > yml.len()) || (
    crate::text::has_suffix(&name, &yaml) && name.len() > yaml.len());
    by_name && has_within(&full, &chars_of("pipeline"))
}

/// A pipeline file of a repository, with its content where it could be
/// read and with the reason where it could not.
#[derive(Debug, PartialEq)]
pub struct PipelineFile {
    pub repo_name: String,
    pub file_path: String,
    pub content: Result<String, String>,
}

/// A file that could not be read, with the reason.
#[derive(Debug, Clone, PartialEq)]
pub struct ExtractionError {
    pub file_path: String,
    pub reason: String,
}

/// What a set of files gives: the invocations of the files that could be
/// read, and the files that could not.
#[derive(Debug, Clone, PartialEq)]
pub struct Extraction {
    pub invocations: Vec<TaskInvocation>,
    pub failures: Vec<ExtractionError>,
}

/// The mathematical form of a pipeline file.
pub struct FileView {
    pub repo: Seq<char>,
    pub path: Seq<char>,
    pub content: Result<Seq<char>, Seq<char>>,
}

impl View for PipelineFile {
    type V = FileView;

    open spec fn view(&self) -> FileView {
        FileView {
            repo: self.repo_name@,
            path: self.file_path@,
            content: match self.content {
                Ok(text) => Ok(text@),
                Err(reason) => Err(reason@),
            },
        }
    }
}

/// The mathematical forms of a list of files.
pub open spec fn file_views(v: Seq<PipelineFile>) -> Seq<FileView> {
    Seq::new(v.len(), |i: int| v[i]@)
}

/// The mathematical forms of a list of failures: the file and the reason.
pub open spec fn failure_views(v: Seq<ExtractionError>) -> Seq<(Seq<char>, Seq<char>)> {
    Seq::new(v.len(), |i: int| (v[i].file_path@, v[i].reason@))
}

/// The invocations of the first `n` files, file after file; a file that
/// could not be read gives none.
pub open spec fn invocations_of_files(files: Seq<FileView>, n: int) -> Seq<Invocation>
    decreases n,
{
    if n <= 0 {
        Seq::<Invocation>::empty()
    } else {
        let before = invocations_of_files(files, n - 1);
        match files[n - 1].content {
            Ok(text) => before + file_invocations(files[n - 1].repo, files[n - 1].path, text),
            Err(_) => before,
        }
    }
}

/// Those of the first `n` files that could not be read, in order.
pub open spec fn unreadable_files(files: Seq<FileView>, n: int) -> Seq<(Seq<char>, Seq<char>)>
    decreases n,
{
    if n <= 0 {
        Seq::<(Seq<char>, Seq<char>)>::empty()
    } else {
        let before = unreadable_files(files, n - 1);
        match files[n - 1].content {
            Ok(_) => before,
            Err(reason) => before.push((files[n - 1].path, reason)),
        }
    }
}

/// Whether the task pattern is tried on a line of one of the first `n`
/// files.
pub open spec fn scans_a_file(files: Seq<FileView>, n: int) -> bool {
    exists|i: int|
        0 <= i < n && i < files.len() && (#[trigger] files[i]).content is Ok && scans_a_line(
            lines(files[i].content->Ok_0),
        )
}

/// Finds the task invocations in a set of pipeline files. A file that
/// could not be read is listed with its reason and does not keep the
/// others from being read.
///
/// The call fails only where the task pattern does not compile and a
/// file has a line on which it would be tried.
pub fn extract(files: &Vec<PipelineFile>) -> (r: Result<Extraction, PatternError>)
    ensures
        r is Err <==> !regex_compiles(task_pattern()) && scans_a_file(
            file_views(files@),
            files@.len() as int,
        ),
        r matches Ok(found) ==> invocation_views(found.invocations@) == invocations_of_files(
            file_views(files@),
            files@.len() as int,
        ) && failure_views(found.failures@) == unreadable_files(
            file_views(files@),
            files@.len() as int,
        ),
{
    let ghost all = file_views(files@);
    let mut out = Extraction { invocations: Vec::new(), failures: Vec::new() };
    let mut i: usize = 0;
    while i < files.len()
        invariant
            i <= files.len(),
            all == file_views(files@),
            invocation_views(out.invocations@) == invocations_of_files(all, i as int),
            failure_views(out.failures@) == unreadable_files(all, i as int),
            !regex_compiles(task_pattern()) ==> !scans_a_file(all, i as int),
        decreases files.len() - i,
    {
        let file = &files[i];
        assert(all[i as int] == file@);
        match &file.content {
            Ok(text) => {
                match extract_invocations(
                    file.repo_name.as_str(),
                    file.file_path.as_str(),
                    text.as_str(),
                ) {
                    Ok(found) => {
                        let ghost before = invocation_views(out.invocations@);
                        let ghost added = invocation_views(found@);
                        let ghost failed = out.failures;
                        let mut k: usize = 0;
                        while k < found.len()
                            invariant
                                k <= found.len(),
                                out.failures == failed,
                                added == invocation_views(found@),
                                invocation_views(out.invocations@) == before + added.take(
                                    k as int,
                                ),
                            decreases found.len() - k,
                        {
                            let item = found[k].duplicate();
                            let ghost sofar = invocation_views(out.invocations@);
                            out.invocations.push(item);
                            assert(invocation_views(out.invocations@) == sofar.push(item@));
                            assert(added.take(k + 1) == added.take(k as int).push(item@));
                            k = k + 1;
                        }
                        assert(added.take(found.len() as int) == added);
                    },
                    Err(e) => {
                        assert(scans_a_file(all, files@.len() as int));
                        return Err(e);
                    },
                }
            },
            Err(reason) => {
                let ghost before = failure_views(out.failures@);
                let item = ExtractionError {
                    file_path: file.file_path.clone(),
                    reason: reason.clone(),
                };
                out.failures.push(item);
                assert(failure_views(out.failures@) == before.push((item.file_path@, item.reason@)));
            },
        }
        proof {
            if !regex_compiles(task_pattern()) && scans_a_file(all, i + 1) {
                let j = choose|j: int|
                    0 <= j < i + 1 && j < all.len() && (#[trigger] all[j]).content is Ok
                        && scans_a_line(lines(all[j].content->Ok_0));
                if j < i {
                    assert(scans_a_file(all, i as int));
                }
            }
        }
        i = i + 1;
    }
    Ok(out)
}

} // verus!
