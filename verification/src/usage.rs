//! Which tasks are used where: every declaration of every pipeline file,
//! and the groups in which a report shows them.

use crate::extract::{declarations, extract_declarations, pair_texts, task_pattern};
use crate::pattern::{regex_compiles, regex_matches, PatternError};
use crate::text::{
    holds_text, same_str, lemma_sorted_texts, lemma_text_order_total, sorted_texts, string_texts, text_order,
};
use vstd::prelude::*;

verus! {

/// One declaration of a task: its name and version, and the repository and
/// file that hold it. The file is also given relative to the repository
/// where it lies under it.
#[derive(Debug, Clone, PartialEq)]
pub struct UsageRecord {
    pub task: String,
    pub version: String,
    pub repo: String,
    pub path: String,
    pub relative_path: Option<String>,
}

/// The mathematical form of a usage record.
pub struct Usage {
    pub task: Seq<char>,
    pub version: Seq<char>,
    pub repo: Seq<char>,
    pub path: Seq<char>,
    pub relative_path: Option<Seq<char>>,
}

impl View for UsageRecord {
    type V = Usage;

    open spec fn view(&self) -> Usage {
        Usage {
            task: self.task@,
            version: self.version@,
            repo: self.repo@,
            path: self.path@,
            relative_path: match self.relative_path {
                Some(p) => Some(p@),
                None => None,
            },
        }
    }
}

/// The mathematical forms of a list of usage records.
pub open spec fn usages(v: Seq<UsageRecord>) -> Seq<Usage> {
    Seq::new(v.len(), |i: int| v[i]@)
}

/// The records of the declarations of one file.
pub open spec fn file_usages(
    repo: Seq<char>,
    path: Seq<char>,
    relative_path: Option<Seq<char>>,
    found: Seq<(Seq<char>, Seq<char>)>,
) -> Seq<Usage> {
    Seq::new(
        found.len(),
        |i: int| Usage { task: found[i].0, version: found[i].1, repo, path, relative_path },
    )
}

/// The text of an optional string slice.
pub open spec fn opt_str(o: Option<&str>) -> Option<Seq<char>> {
    match o {
        Some(s) => Some(s@),
        None => None,
    }
}

/// Records every task declaration in the content of one pipeline file,
/// the content taken as a whole.
pub fn usage_records(repo: &str, path: &str, relative_path: Option<&str>, content: &str) -> (r:
    Result<Vec<UsageRecord>, PatternError>)
    ensures
        r is Ok <==> regex_compiles(task_pattern()),
        r matches Ok(found) ==> usages(found@) == file_usages(
            repo@,
            path@,
            opt_str(relative_path),
            declarations(regex_matches(task_pattern(), content@)),
        ),
{
    match extract_declarations(content) {
        Err(e) => Err(e),
        Ok(found) => {
            let ghost all = file_usages(repo@, path@, opt_str(relative_path), pair_texts(found@));
            let mut out: Vec<UsageRecord> = Vec::new();
            let mut i: usize = 0;
            while i < found.len()
                invariant
                    i <= found.len(),
                    all == file_usages(repo@, path@, opt_str(relative_path), pair_texts(found@)),
                    usages(out@) == all.take(i as int),
                decreases found.len() - i,
            {
                let item = UsageRecord {
                    task: found[i].0.clone(),
                    version: found[i].1.clone(),
                    repo: repo.to_owned(),
                    path: path.to_owned(),
                    relative_path: match relative_path {
                        Some(p) => Some(p.to_owned()),
                        None => None,
                    },
                };
                let ghost before = usages(out@);
                out.push(item);
                assert(usages(out@) == before.push(item@));
                assert(pair_texts(found@)[i as int] == (found@[i as int].0@, found@[i as int].1@));
                assert(all.take(i + 1) == all.take(i as int).push(item@));
                i = i + 1;
            }
            assert(all.take(found.len() as int) == all);
            Ok(out)
        },
    }
}

/// Sorts the strings with `Itertools::sorted`, which sorts in ascending
/// order and keeps every element. The contract says so in the order of
/// strings that the standard library documents: by code point, character
/// by character.
#[verifier::external_body]
fn sorted_names(items: Vec<String>) -> (r: Vec<String>)
    ensures
        vstd::relations::sorted_by(string_texts(r@), text_order()),
        string_texts(r@).to_multiset() == string_texts(items@).to_multiset(),
{
    itertools::Itertools::sorted(items.into_iter()).collect()
}

/// The strings in the order of texts.
pub fn sort_names(items: Vec<String>) -> (r: Vec<String>)
    ensures
        string_texts(r@) == sorted_texts(string_texts(items@)),
{
    let ghost before = string_texts(items@);
    let r = sorted_names(items);
    proof {
        lemma_sorted_texts(before);
        lemma_text_order_total();
        vstd::seq_lib::lemma_sorted_unique(string_texts(r@), sorted_texts(before), text_order());
    }
    r
}

/// The texts of a list, each once, in the order in which they first
/// stand.
pub open spec fn distinct(s: Seq<Seq<char>>) -> Seq<Seq<char>>
    decreases s.len(),
{
    if s.len() == 0 {
        s
    } else {
        let before = distinct(s.drop_last());
        if before.contains(s.last()) {
            before
        } else {
            before.push(s.last())
        }
    }
}

/// `distinct` holds what the list holds, and nothing twice.
pub proof fn lemma_distinct(s: Seq<Seq<char>>)
    ensures
        distinct(s).no_duplicates(),
        forall|t: Seq<char>| #[trigger] distinct(s).contains(t) <==> s.contains(t),
    decreases s.len(),
{
    if s.len() > 0 {
        let head = s.drop_last();
        lemma_distinct(head);
        let before = distinct(head);
        let now = distinct(s);
        assert forall|t: Seq<char>| #[trigger] now.contains(t) <==> s.contains(t) by {
            assert(before.contains(t) <==> head.contains(t));
            if s.contains(t) {
                let i = choose|i: int| 0 <= i < s.len() && s[i] == t;
                if i < head.len() {
                    assert(head[i] == t);
                }
            }
            if head.contains(t) {
                let i = choose|i: int| 0 <= i < head.len() && head[i] == t;
                assert(s[i] == t);
            }
            if s.last() == t {
                assert(s[s.len() - 1] == t);
            }
            if before.contains(t) {
                let i = choose|i: int| 0 <= i < before.len() && before[i] == t;
                if now.len() > before.len() {
                    assert(now[i] == t);
                }
            }
            if now.contains(t) && now.len() > before.len() {
                let i = choose|i: int| 0 <= i < now.len() && now[i] == t;
                if i < before.len() {
                    assert(before[i] == t);
                }
            }
            if now.len() > before.len() && s.last() == t {
                assert(now[before.len() as int] == t);
            }
        }
        if now.len() > before.len() {
            assert forall|a: int, b: int|
                0 <= a < now.len() && 0 <= b < now.len() && a != b implies now[a] != now[b] by {
                if a < before.len() && b < before.len() {
                    assert(before[a] != before[b]);
                } else if a < before.len() {
                    assert(before.contains(now[a]));
                } else if b < before.len() {
                    assert(before.contains(now[b]));
                }
            }
        }
    }
}

/// The texts of a list, each once, in the order of texts.
pub open spec fn sorted_set(keys: Seq<Seq<char>>) -> Seq<Seq<char>> {
    sorted_texts(distinct(keys))
}

/// A sorted set is in order, holds nothing twice, and holds exactly what
/// the list holds.
pub proof fn lemma_sorted_set(keys: Seq<Seq<char>>)
    ensures
        vstd::relations::sorted_by(sorted_set(keys), text_order()),
        sorted_set(keys).no_duplicates(),
        forall|t: Seq<char>| #[trigger] sorted_set(keys).contains(t) <==> keys.contains(t),
{
    let d = distinct(keys);
    let out = sorted_set(keys);
    lemma_distinct(keys);
    lemma_sorted_texts(d);
    d.lemma_multiset_has_no_duplicates();
    assert forall|t: Seq<char>| out.to_multiset().count(t) <= 1 by {
        assert(d.to_multiset().count(t) <= 1);
    }
    out.lemma_multiset_has_no_duplicates_conv();
    assert forall|t: Seq<char>| #[trigger] out.contains(t) <==> keys.contains(t) by {
        assert(d.contains(t) <==> keys.contains(t));
    }
}

/// The strings of a list, each once, in the order in which they first
/// stand.
pub fn distinct_names(items: &Vec<String>) -> (r: Vec<String>)
    ensures
        string_texts(r@) == distinct(string_texts(items@)),
{
    let ghost all = string_texts(items@);
    let mut unique: Vec<String> = Vec::new();
    let mut i: usize = 0;
    while i < items.len()
        invariant
            i <= items.len(),
            all == string_texts(items@),
            string_texts(unique@) == distinct(all.take(i as int)),
        decreases items.len() - i,
    {
        assert(all.take(i + 1).drop_last() == all.take(i as int));
        assert(all.take(i + 1).last() == items@[i as int]@);
        let seen = holds_text(&unique, items[i].as_str());
        if !seen {
            let ghost before = string_texts(unique@);
            let copy = items[i].clone();
            unique.push(copy);
            assert(string_texts(unique@) == before.push(copy@));
        }
        i = i + 1;
    }
    assert(all.take(items.len() as int) == all);
    unique
}

/// The strings of a list, each once, in the order of texts.
pub fn sorted_distinct(items: &Vec<String>) -> (r: Vec<String>)
    ensures
        string_texts(r@) == sorted_set(string_texts(items@)),
{
    sort_names(distinct_names(items))
}

/// The tasks of the records, one for each record.
pub open spec fn task_keys(records: Seq<Usage>) -> Seq<Seq<char>> {
    Seq::new(records.len(), |i: int| records[i].task)
}

/// The versions of the records of a task among the first `n`, in order.
pub open spec fn version_keys(records: Seq<Usage>, task: Seq<char>, n: int) -> Seq<Seq<char>>
    decreases n,
{
    if n <= 0 {
        Seq::<Seq<char>>::empty()
    } else {
        let before = version_keys(records, task, n - 1);
        if records[n - 1].task == task {
            before.push(records[n - 1].version)
        } else {
            before
        }
    }
}

/// The repositories of the records of a task and version among the first
/// `n`, in order.
pub open spec fn repo_keys(records: Seq<Usage>, task: Seq<char>, version: Seq<char>, n: int) -> Seq<
    Seq<char>,
>
    decreases n,
{
    if n <= 0 {
        Seq::<Seq<char>>::empty()
    } else {
        let before = repo_keys(records, task, version, n - 1);
        if records[n - 1].task == task && records[n - 1].version == version {
            before.push(records[n - 1].repo)
        } else {
            before
        }
    }
}

/// The records of a task, version and repository among the first `n`, in
/// order.
pub open spec fn records_of(
    records: Seq<Usage>,
    task: Seq<char>,
    version: Seq<char>,
    repo: Seq<char>,
    n: int,
) -> Seq<Usage>
    decreases n,
{
    if n <= 0 {
        Seq::<Usage>::empty()
    } else {
        let before = records_of(records, task, version, repo, n - 1);
        let x = records[n - 1];
        if x.task == task && x.version == version && x.repo == repo {
            before.push(x)
        } else {
            before
        }
    }
}

/// The tasks that the records name, each once, in the order of texts.
pub fn usage_tasks(records: &Vec<UsageRecord>) -> (r: Vec<String>)
    ensures
        string_texts(r@) == sorted_set(task_keys(usages(records@))),
{
    let mut keys: Vec<String> = Vec::new();
    let mut i: usize = 0;
    while i < records.len()
        invariant
            i <= records.len(),
            string_texts(keys@) == task_keys(usages(records@)).take(i as int),
        decreases records.len() - i,
    {
        let ghost before = string_texts(keys@);
        let key = records[i].task.clone();
        keys.push(key);
        assert(string_texts(keys@) == before.push(key@));
        assert(task_keys(usages(records@)).take(i + 1) == task_keys(usages(records@)).take(
            i as int,
        ).push(key@));
        i = i + 1;
    }
    assert(task_keys(usages(records@)).take(records.len() as int) == task_keys(
        usages(records@),
    ));
    sorted_distinct(&keys)
}

/// The versions in which the records name a task, each once, in the
/// order of texts.
pub fn usage_versions(records: &Vec<UsageRecord>, task: &str) -> (r: Vec<String>)
    ensures
        string_texts(r@) == sorted_set(
            version_keys(usages(records@), task@, records@.len() as int),
        ),
{
    let mut keys: Vec<String> = Vec::new();
    let mut i: usize = 0;
    while i < records.len()
        invariant
            i <= records.len(),
            string_texts(keys@) == version_keys(usages(records@), task@, i as int),
        decreases records.len() - i,
    {
        assert(usages(records@)[i as int] == records@[i as int]@);
        if same_str(records[i].task.as_str(), task) {
            let ghost before = string_texts(keys@);
            let key = records[i].version.clone();
            keys.push(key);
            assert(string_texts(keys@) == before.push(key@));
        }
        i = i + 1;
    }
    sorted_distinct(&keys)
}

/// The repositories in which the records name a task in a version, each
/// once, in the order of texts.
pub fn usage_repos(records: &Vec<UsageRecord>, task: &str, version: &str) -> (r: Vec<String>)
    ensures
        string_texts(r@) == sorted_set(
            repo_keys(usages(records@), task@, version@, records@.len() as int),
        ),
{
    let mut keys: Vec<String> = Vec::new();
    let mut i: usize = 0;
    while i < records.len()
        invariant
            i <= records.len(),
            string_texts(keys@) == repo_keys(usages(records@), task@, version@, i as int),
        decreases records.len() - i,
    {
        assert(usages(records@)[i as int] == records@[i as int]@);
        if same_str(records[i].task.as_str(), task) && same_str(
            records[i].version.as_str(),
            version,
        ) {
            let ghost before = string_texts(keys@);
            let key = records[i].repo.clone();
            keys.push(key);
            assert(string_texts(keys@) == before.push(key@));
        }
        i = i + 1;
    }
    sorted_distinct(&keys)
}

/// The records that name a task in a version in a repository, in order.
pub fn usage_files(records: &Vec<UsageRecord>, task: &str, version: &str, repo: &str) -> (r: Vec<
    UsageRecord,
>)
    ensures
        usages(r@) == records_of(usages(records@), task@, version@, repo@, records@.len() as int),
{
    let mut out: Vec<UsageRecord> = Vec::new();
    let mut i: usize = 0;
    while i < records.len()
        invariant
            i <= records.len(),
            usages(out@) == records_of(usages(records@), task@, version@, repo@, i as int),
        decreases records.len() - i,
    {
        assert(usages(records@)[i as int] == records@[i as int]@);
        let x = &records[i];
        if same_str(x.task.as_str(), task) && same_str(x.version.as_str(), version) && same_str(
            x.repo.as_str(),
            repo,
        ) {
            let ghost before = usages(out@);
            let item = UsageRecord {
                task: x.task.clone(),
                version: x.version.clone(),
                repo: x.repo.clone(),
                path: x.path.clone(),
                relative_path: match &x.relative_path {
                    Some(p) => Some(p.clone()),
                    None => None,
                },
            };
            out.push(item);
            assert(usages(out@) == before.push(item@));
        }
        i = i + 1;
    }
    out
}

} // verus!
