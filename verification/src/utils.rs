//! Small helpers for file names.

use crate::text::{chars_of, string_of};
use vstd::prelude::*;

verus! {

/// A character of a path made safe for a file name: a slash or a
/// backslash becomes an underscore.
pub open spec fn sanitized_char(c: char) -> char {
    if c == '/' || c == '\\' {
        '_'
    } else {
        c
    }
}

/// A path made safe for a file name, character by character.
pub open spec fn sanitized(path: Seq<char>) -> Seq<char> {
    Seq::new(path.len(), |i: int| sanitized_char(path[i]))
}

/// Makes a path safe to use as the name of one file: no separator is
/// left in it, so it cannot lead out of the directory it is used in.
pub fn sanitize_file_path(path: &str) -> (r: String)
    ensures
        r@ == sanitized(path@),
        forall|i: int| 0 <= i < r@.len() ==> r@[i] != '/' && r@[i] != '\\',
{
    let input = chars_of(path);
    let mut out: Vec<char> = Vec::new();
    let mut i: usize = 0;
    while i < input.len()
        invariant
            i <= input.len(),
            input@ == path@,
            out@ == sanitized(path@).take(i as int),
        decreases input.len() - i,
    {
        let c = input[i];
        let safe = if c == '/' || c == '\\' {
            '_'
        } else {
            c
        };
        out.push(safe);
        assert(sanitized(path@).take(i + 1) == sanitized(path@).take(i as int).push(safe));
        i = i + 1;
    }
    assert(sanitized(path@).take(input.len() as int) == sanitized(path@));
    string_of(&out)
}

} // verus!
