//! The lines that show the standing of a repository on the console.

use crate::compliance::{classify_triple, opt_text, triple_status, Compliance};
use crate::gitversion::GitVersionImplementation;
use crate::task::{state_views, TaskValidState};
use crate::text::{chars_of, push_str, same_str, string_of};
use vstd::prelude::*;

verus! {

/// The width of the column that holds the name of a repository.
pub const NAME_WIDTH: usize = 25;

/// A text followed by spaces up to a width; a longer text stays as it is.
pub open spec fn padded(s: Seq<char>, width: nat) -> Seq<char> {
    if s.len() >= width {
        s
    } else {
        s + Seq::new((width - s.len()) as nat, |i: int| ' ')
    }
}

/// Appends a text and then spaces up to a width.
pub fn push_padded(out: &mut Vec<char>, s: &str, width: usize)
    ensures
        final(out)@ == old(out)@ + padded(s@, width as nat),
{
    let text = chars_of(s);
    let n = text.len();
    push_str(out, s);
    if n < width {
        let ghost fill = Seq::new((width - n) as nat, |i: int| ' ');
        let mut k: usize = n;
        while k < width
            invariant
                n <= k <= width,
                n == s@.len(),
                fill == Seq::new((width - n) as nat, |i: int| ' '),
                out@ == old(out)@ + s@ + fill.take(k - n),
            decreases width - k,
        {
            out.push(' ');
            assert(fill.take(k + 1 - n) == fill.take(k - n).push(' '));
            k = k + 1;
        }
        assert(fill.take(width - n) == fill);
        assert(out@ == old(out)@ + (s@ + fill));
    }
}

/// The mark of a standing: a check mark for compliant, a cross otherwise.
pub open spec fn mark(compliant: bool) -> Seq<char> {
    if compliant {
        seq!['✓']
    } else {
        seq!['✗']
    }
}

/// A text, or `?` where there is none.
pub open spec fn or_unknown(o: Option<Seq<char>>) -> Seq<char> {
    match o {
        Some(s) => s,
        None => seq!['?'],
    }
}

/// A text behind a label, or the label with `none`.
pub open spec fn labelled(label: Seq<char>, o: Option<Seq<char>>) -> Seq<char> {
    match o {
        Some(s) => label + s,
        None => label + "none"@,
    }
}

/// A path in brackets behind a space, or nothing.
pub open spec fn bracketed(path: Option<Seq<char>>) -> Seq<char> {
    match path {
        Some(p) => " ("@ + p + ")"@,
        None => Seq::<char>::empty(),
    }
}

/// The line that shows how a repository stands with a triple of versions.
pub open spec fn triple_line(
    compliant: bool,
    repo: Seq<char>,
    setup: Option<Seq<char>>,
    execute: Option<Seq<char>>,
    spec: Option<Seq<char>>,
    path: Option<Seq<char>>,
) -> Seq<char> {
    mark(compliant) + seq![' '] + padded(repo, NAME_WIDTH as nat) + seq![' '] + or_unknown(setup)
        + " | "@ + or_unknown(execute) + " | "@ + or_unknown(spec) + bracketed(path)
}

/// The line that shows what one file uses of the versioning tool.
pub open spec fn file_line(
    compliant: bool,
    repo: Seq<char>,
    setup: Option<Seq<char>>,
    execute: Option<Seq<char>>,
    spec: Option<Seq<char>>,
    path: Option<Seq<char>>,
) -> Seq<char> {
    mark(compliant) + seq![' '] + padded(repo, NAME_WIDTH as nat) + seq![' '] + labelled(
        "setup@"@,
        setup,
    ) + " | "@ + labelled("execute@"@, execute) + " | "@ + labelled("spec@"@, spec) + bracketed(
        path,
    )
}

/// The line that shows how an occurrence of a task stands.
pub open spec fn version_line(
    compliant: bool,
    repo: Seq<char>,
    version: Seq<char>,
    path: Seq<char>,
) -> Seq<char> {
    mark(compliant) + seq![' '] + padded(repo, NAME_WIDTH as nat) + " @"@ + version + " ("@ + path
        + ")"@
}

fn push_mark(out: &mut Vec<char>, compliant: bool)
    ensures
        final(out)@ == old(out)@ + mark(compliant),
{
    if compliant {
        out.push('✓');
    } else {
        out.push('✗');
    }
    assert(out@ == old(out)@ + mark(compliant));
}

fn push_or_unknown(out: &mut Vec<char>, o: &Option<String>)
    ensures
        final(out)@ == old(out)@ + or_unknown(opt_text(*o)),
{
    match o {
        Some(s) => {
            push_str(out, s.as_str());
        },
        None => {
            out.push('?');
            assert(out@ == old(out)@ + seq!['?']);
        },
    }
}

fn push_labelled(out: &mut Vec<char>, label: &str, o: &Option<String>)
    ensures
        final(out)@ == old(out)@ + labelled(label@, opt_text(*o)),
{
    push_str(out, label);
    match o {
        Some(s) => {
            push_str(out, s.as_str());
        },
        None => {
            push_str(out, "none");
        },
    }
    assert(out@ == old(out)@ + labelled(label@, opt_text(*o)));
}

fn push_bracketed(out: &mut Vec<char>, path: &Option<String>)
    ensures
        final(out)@ == old(out)@ + bracketed(opt_text(*path)),
{
    match path {
        Some(p) => {
            push_str(out, " (");
            push_str(out, p.as_str());
            push_str(out, ")");
            assert(out@ == old(out)@ + bracketed(opt_text(*path)));
        },
        None => {
            assert(out@ == old(out)@ + Seq::<char>::empty());
        },
    }
}

/// The line that shows how a repository stands with a triple of versions:
/// the mark, the name in its column, the three versions, each `?` where
/// it was not found, and the path where one is given.
pub fn triple_status_line(
    compliant: bool,
    repo: &str,
    setup: &Option<String>,
    execute: &Option<String>,
    spec: &Option<String>,
    path: &Option<String>,
) -> (r: String)
    ensures
        r@ == triple_line(
            compliant,
            repo@,
            opt_text(*setup),
            opt_text(*execute),
            opt_text(*spec),
            opt_text(*path),
        ),
{
    let mut out: Vec<char> = Vec::new();
    push_mark(&mut out, compliant);
    out.push(' ');
    push_padded(&mut out, repo, NAME_WIDTH);
    out.push(' ');
    push_or_unknown(&mut out, setup);
    push_str(&mut out, " | ");
    push_or_unknown(&mut out, execute);
    push_str(&mut out, " | ");
    push_or_unknown(&mut out, spec);
    push_bracketed(&mut out, path);
    assert(out@ == triple_line(
        compliant,
        repo@,
        opt_text(*setup),
        opt_text(*execute),
        opt_text(*spec),
        opt_text(*path),
    ));
    string_of(&out)
}

/// The setup version of what a file uses, if it has a setup step.
pub open spec fn setup_of(found: GitVersionImplementation) -> Option<Seq<char>> {
    match found.setup {
        Some((version, _)) => Some(version@),
        None => None,
    }
}

/// The specification of what a file uses, if its setup step has one.
pub open spec fn spec_of(found: GitVersionImplementation) -> Option<Seq<char>> {
    match found.setup {
        Some((_, Some(spec))) => Some(spec@),
        _ => None,
    }
}

/// How one file stands with what it uses of the versioning tool.
pub fn classify_file(found: &GitVersionImplementation, states: &Vec<TaskValidState>) -> (r:
    Compliance)
    ensures
        r == triple_status(
            state_views(states@),
            setup_of(*found),
            opt_text(found.execute),
            spec_of(*found),
        ),
{
    let (setup, spec) = match &found.setup {
        Some((version, Some(spec))) => (Some(version.clone()), Some(spec.clone())),
        Some((version, None)) => (Some(version.clone()), None),
        None => (None, None),
    };
    classify_triple(states, &setup, &found.execute, &spec)
}

/// The line that shows what one file uses of the versioning tool: the
/// mark, the name of the repository in its column, the three versions
/// behind their labels, and the path where one is given.
pub fn file_status_line(
    compliant: bool,
    repo: &str,
    found: &GitVersionImplementation,
    path: &Option<String>,
) -> (r: String)
    ensures
        r@ == file_line(
            compliant,
            repo@,
            setup_of(*found),
            opt_text(found.execute),
            spec_of(*found),
            opt_text(*path),
        ),
{
    let (setup, spec) = match &found.setup {
        Some((version, Some(spec))) => (Some(version.clone()), Some(spec.clone())),
        Some((version, None)) => (Some(version.clone()), None),
        None => (None, None),
    };
    let mut out: Vec<char> = Vec::new();
    push_mark(&mut out, compliant);
    out.push(' ');
    push_padded(&mut out, repo, NAME_WIDTH);
    out.push(' ');
    push_labelled(&mut out, "setup@", &setup);
    push_str(&mut out, " | ");
    push_labelled(&mut out, "execute@", &found.execute);
    push_str(&mut out, " | ");
    push_labelled(&mut out, "spec@", &spec);
    push_bracketed(&mut out, path);
    assert(out@ == file_line(
        compliant,
        repo@,
        setup_of(*found),
        opt_text(found.execute),
        spec_of(*found),
        opt_text(*path),
    ));
    string_of(&out)
}

/// The line that shows how an occurrence of a task stands: the mark, the
/// name of the repository in its column, the version and the path.
pub fn version_status_line(compliant: bool, repo: &str, version: &str, path: &str) -> (r: String)
    ensures
        r@ == version_line(compliant, repo@, version@, path@),
{
    let mut out: Vec<char> = Vec::new();
    push_mark(&mut out, compliant);
    out.push(' ');
    push_padded(&mut out, repo, NAME_WIDTH);
    push_str(&mut out, " @");
    push_str(&mut out, version);
    push_str(&mut out, " (");
    push_str(&mut out, path);
    push_str(&mut out, ")");
    assert(out@ == version_line(compliant, repo@, version@, path@));
    string_of(&out)
}

/// How many of the first `n` files use the versioning tool as the given
/// one does: with an equal setup step and an equal execute step.
pub open spec fn same_use_count(
    all: Seq<GitVersionImplementation>,
    found: GitVersionImplementation,
    n: int,
) -> nat
    decreases n,
{
    if n <= 0 {
        0
    } else {
        same_use_count(all, found, n - 1) + if same_use(all[n - 1], found) {
            1nat
        } else {
            0nat
        }
    }
}

/// Whether two files use the versioning tool alike.
pub open spec fn same_use(a: GitVersionImplementation, b: GitVersionImplementation) -> bool {
    &&& setup_of(a) == setup_of(b)
    &&& spec_of(a) == spec_of(b)
    &&& opt_text(a.execute) == opt_text(b.execute)
}

/// Whether two optional strings hold the same.
fn same_opt(a: &Option<String>, b: &Option<String>) -> (r: bool)
    ensures
        r == (opt_text(*a) == opt_text(*b)),
{
    match (a, b) {
        (Some(x), Some(y)) => same_str(x.as_str(), y.as_str()),
        (None, None) => true,
        _ => false,
    }
}

/// Whether two files use the versioning tool alike.
pub fn uses_alike(a: &GitVersionImplementation, b: &GitVersionImplementation) -> (r: bool)
    ensures
        r == same_use(*a, *b),
{
    let setups = match (&a.setup, &b.setup) {
        (Some((v, s)), Some((w, t))) => same_str(v.as_str(), w.as_str()) && same_opt(s, t),
        (None, None) => true,
        _ => false,
    };
    setups && same_opt(&a.execute, &b.execute)
}

/// Whether the path of a file is shown beside its line: it is where more
/// than one file of the repository uses the versioning tool alike.
pub fn shows_path(all: &Vec<GitVersionImplementation>, found: &GitVersionImplementation) -> (r:
    bool)
    ensures
        r == (same_use_count(all@, *found, all@.len() as int) > 1),
{
    let mut count: usize = 0;
    let mut i: usize = 0;
    while i < all.len()
        invariant
            i <= all.len(),
            count == same_use_count(all@, *found, i as int),
            count <= i,
        decreases all.len() - i,
    {
        if uses_alike(&all[i], found) {
            count = count + 1;
        }
        i = i + 1;
    }
    count > 1
}

} // verus!
