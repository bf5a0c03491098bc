//! Version equivalence: two version texts are equivalent when, padded to
//! three components, they denote the same three numbers, and otherwise
//! when they are the same text.
//!
//! The comparison is computed with the `semver` parser. What is known of
//! the parser suffices to prove that the result is version equivalence as
//! `version_equivalent` defines it, without reference to the parser.

use crate::text::{
    all_digits, append, chars_of, count_char, count_of, decimal, first_index, lemma_count_zero,
    lemma_decimal_digits, lemma_first_index_at, lemma_first_index_bounds, only_digits, same_str,
    split_on, string_of,
};
use vstd::prelude::*;

verus! {

/// The components of a semantic version, as plain values.
pub struct ParsedVersion {
    pub major: u64,
    pub minor: u64,
    pub patch: u64,
    pub pre: String,
    pub build: String,
}

/// The mathematical form of a parsed version: major, minor, patch,
/// pre-release text and build metadata text.
pub type VersionParts = (u64, u64, u64, Seq<char>, Seq<char>);

impl ParsedVersion {
    /// The components as mathematical values.
    pub open spec fn parts(&self) -> VersionParts {
        (self.major, self.minor, self.patch, self.pre@, self.build@)
    }
}

/// The parts of an optional parsed version.
pub open spec fn parsed_parts(p: Option<ParsedVersion>) -> Option<VersionParts> {
    match p {
        Some(v) => Some(v.parts()),
        None => None,
    }
}

/// What `semver::Version::parse` makes of a text: the parts of the version
/// it returns, or `None` where it returns an error.
pub uninterp spec fn semver_parse(text: Seq<char>) -> Option<VersionParts>;

/// The number that a text of decimal digits denotes.
pub open spec fn decimal_value(s: Seq<char>) -> nat
    decreases s.len(),
{
    if s.len() == 0 {
        0
    } else {
        10 * decimal_value(s.drop_last()) + (s.last() as u32 - '0' as u32) as nat
    }
}

/// A version component: decimal digits, at least one, with no leading zero
/// before another digit, denoting a number that fits in 64 bits.
pub open spec fn is_version_number(s: Seq<char>) -> bool {
    &&& s.len() > 0
    &&& all_digits(s)
    &&& (s.len() == 1 || s[0] != '0')
    &&& decimal_value(s) <= u64::MAX
}

/// The three numbers of a text made of three version components with a dot
/// between each two, and `None` for any other text.
pub open spec fn numeric_triple(s: Seq<char>) -> Option<(u64, u64, u64)> {
    let parts = split_on(s, '.');
    if parts.len() == 3 && is_version_number(parts[0]) && is_version_number(parts[1])
        && is_version_number(parts[2]) {
        Some(
            (
                decimal_value(parts[0]) as u64,
                decimal_value(parts[1]) as u64,
                decimal_value(parts[2]) as u64,
            ),
        )
    } else {
        None
    }
}

/// Two texts with a dot between them.
pub open spec fn dotted(n: Seq<char>, m: Seq<char>) -> Seq<char> {
    n + seq!['.'] + m
}

/// A text behind a mark, or nothing for an empty text.
pub open spec fn marked(mark: char, s: Seq<char>) -> Seq<char> {
    if s.len() > 0 {
        seq![mark] + s
    } else {
        Seq::<char>::empty()
    }
}

/// How a version is written: the three numbers in decimal digits with
/// dots between them, then the pre-release behind a hyphen and the build
/// metadata behind a plus sign, each where there is one.
pub open spec fn rendered(v: VersionParts) -> Seq<char> {
    dotted(dotted(decimal(v.0 as nat), decimal(v.1 as nat)), decimal(v.2 as nat)) + marked(
        '-',
        v.3,
    ) + marked('+', v.4)
}

/// Calls `semver::Version::parse` and hands out the fields of the version
/// it returns. The contract names the outcome `semver_parse` and claims two
/// things of it that the parser's source shows. A text that parses is
/// the version written out, character for character: the parser takes
/// no leading zero, no white space and nothing behind the version, and it
/// keeps pre-release and build metadata as they stand. And three plain
/// version numbers joined by dots parse to those numbers with empty
/// pre-release and build metadata.
#[verifier::external_body]
fn parse_version(text: &str) -> (r: Option<ParsedVersion>)
    ensures
        parsed_parts(r) == semver_parse(text@),
        r matches Some(v) ==> text@ == rendered(v.parts()),
        numeric_triple(text@) matches Some(t) ==> parsed_parts(r) == Some(
            (t.0, t.1, t.2, Seq::<char>::empty(), Seq::<char>::empty()),
        ),
{
    match semver::Version::parse(text) {
        Ok(v) => Some(
            ParsedVersion {
                major: v.major,
                minor: v.minor,
                patch: v.patch,
                pre: v.pre.as_str().to_string(),
                build: v.build.as_str().to_string(),
            },
        ),
        Err(_) => None,
    }
}

/// A version text padded towards three components: a text of digits alone
/// gets `.0.0`, a text with exactly one dot gets `.0`, any other text stays
/// as it is.
pub open spec fn normalized(v: Seq<char>) -> Seq<char> {
    if all_digits(v) {
        v + seq!['.', '0', '.', '0']
    } else if count_of(v, '.') == 1 {
        v + seq!['.', '0']
    } else {
        v
    }
}

/// Whether two texts agree as versions, given what the parser made of their
/// padded forms: where both parsed, the parsed versions are equal; where
/// either did not, the texts themselves are equal.
pub open spec fn versions_agree(
    pa: Option<VersionParts>,
    pb: Option<VersionParts>,
    a: Seq<char>,
    b: Seq<char>,
) -> bool {
    match (pa, pb) {
        (Some(x), Some(y)) => x == y,
        _ => a == b,
    }
}

/// What the comparison computes: the agreement of the two texts given what
/// the parser makes of their padded forms.
pub open spec fn parsed_equivalent(a: Seq<char>, b: Seq<char>) -> bool {
    versions_agree(semver_parse(normalized(a)), semver_parse(normalized(b)), a, b)
}

/// The three numbers that a version text denotes: those of its padded
/// form, where that is three version numbers joined by dots. A missing
/// minor or patch component counts as zero.
pub open spec fn version_numbers(v: Seq<char>) -> Option<(u64, u64, u64)> {
    numeric_triple(normalized(v))
}

/// Version equivalence of two texts: where both denote three numbers, the
/// numbers are the same; where either does not, the texts are the same.
pub open spec fn version_equivalent(a: Seq<char>, b: Seq<char>) -> bool {
    match (version_numbers(a), version_numbers(b)) {
        (Some(x), Some(y)) => x == y,
        _ => a == b,
    }
}

/// One of the three spellings of the version number `n`: `n`, `n.0` or
/// `n.0.0`.
pub open spec fn is_padding_of(n: Seq<char>, v: Seq<char>) -> bool {
    ||| v == n
    ||| v == n + seq!['.', '0']
    ||| v == n + seq!['.', '0', '.', '0']
}

/// Pads a version text towards three components.
pub fn normalize(v: &str) -> (r: String)
    ensures
        r@ == normalized(v@),
{
    let mut chars = chars_of(v);
    if only_digits(&chars) {
        let tail: Vec<char> = vec!['.', '0', '.', '0'];
        append(&mut chars, &tail);
    } else if count_char(&chars, '.') == 1 {
        let tail: Vec<char> = vec!['.', '0'];
        append(&mut chars, &tail);
    }
    string_of(&chars)
}

/// Decides equivalence of the texts `a` and `b` from the parse results of
/// their padded forms.
pub fn agree(pa: &Option<ParsedVersion>, pb: &Option<ParsedVersion>, a: &str, b: &str) -> (r:
    bool)
    ensures
        r == versions_agree(parsed_parts(*pa), parsed_parts(*pb), a@, b@),
{
    match (pa, pb) {
        (Some(x), Some(y)) => {
            x.major == y.major && x.minor == y.minor && x.patch == y.patch && x.pre == y.pre
                && x.build == y.build
        },
        _ => same_str(a, b),
    }
}

/// Whether `a` and `b` are equivalent versions.
///
/// The result is computed from what the parser makes of the padded texts
/// and is proved to be version equivalence: equality of the three numbers
/// where both texts denote numbers, equality of the texts otherwise.
pub fn equivalent(a: &str, b: &str) -> (r: bool)
    ensures
        r == version_equivalent(a@, b@),
        r == parsed_equivalent(a@, b@),
{
    let na = normalize(a);
    let nb = normalize(b);
    let pa = parse_version(na.as_str());
    let pb = parse_version(nb.as_str());
    proof {
        lemma_agreement_is_equivalence(a@, b@, parsed_parts(pa), parsed_parts(pb));
    }
    agree(&pa, &pb, a, b)
}

/// The decimal digits of a number that fits in 64 bits are a version
/// number, and the number is theirs.
pub proof fn lemma_decimal_is_version_number(n: nat)
    requires
        n <= u64::MAX,
    ensures
        is_version_number(decimal(n)),
        decimal_value(decimal(n)) == n,
{
    lemma_decimal_digits(n);
    lemma_decimal_value(n);
}

/// The decimal digits of a number denote the number.
pub proof fn lemma_decimal_value(n: nat)
    ensures
        decimal_value(decimal(n)) == n,
    decreases n,
{
    if n >= 10 {
        lemma_decimal_value(n / 10);
        let head = decimal(n / 10);
        let d = crate::text::digit_char(n % 10);
        assert(decimal(n) == head.push(d));
        assert(head.push(d).drop_last() == head);
        assert(d as u32 - '0' as u32 == n % 10);
    } else {
        let s = decimal(n);
        assert(s.drop_last().len() == 0);
        assert(s.last() as u32 - '0' as u32 == n);
        reveal_with_fuel(decimal_value, 2);
    }
}

/// A padded text that differs from its text and is a version written out
/// is three version numbers joined by dots.
pub proof fn lemma_padded_and_written(a: Seq<char>, v: VersionParts)
    requires
        normalized(a) != a,
        normalized(a) == rendered(v),
    ensures
        numeric_triple(normalized(a)) is Some,
{
    let x = normalized(a);
    let major = decimal(v.0 as nat);
    let minor = decimal(v.1 as nat);
    let patch = decimal(v.2 as nat);
    let tail = marked('-', v.3) + marked('+', v.4);
    lemma_decimal_is_version_number(v.0 as nat);
    lemma_decimal_is_version_number(v.1 as nat);
    lemma_decimal_is_version_number(v.2 as nat);
    lemma_digits_hold_no_dot(major);
    lemma_digits_hold_no_dot(minor);
    let dot = seq!['.'];
    // The version written out, read from its first dot on.
    let rest = minor + dot + patch + tail;
    assert(x == major + (dot + rest));
    let k = major.len() as int;
    lemma_first_index_at(x, '.', k);
    assert(x.take(k) == major);
    assert(x.skip(k + 1) == rest);
    let j = minor.len() as int;
    assert(rest == minor + (dot + (patch + tail)));
    lemma_first_index_at(rest, '.', j);
    assert(rest.take(j) == minor);
    assert(rest.skip(j + 1) == patch + tail);
    if all_digits(a) {
        let pad = seq!['.', '0', '.', '0'];
        assert(x == a + pad);
        lemma_digits_hold_no_dot(a);
        lemma_first_index_at(x, '.', a.len() as int);
        assert(x.take(a.len() as int) == a);
        assert(a == major);
        lemma_padding_normalizes(a, a);
    } else {
        assert(count_of(a, '.') == 1);
        let pad = seq!['.', '0'];
        assert(x == a + pad);
        lemma_first_index_bounds(a, '.');
        let i = first_index(a, '.');
        if i >= a.len() {
            lemma_count_zero(a, '.');
            assert(false);
        }
        let before = a.take(i);
        let after = a.skip(i + 1);
        assert(a == before + dot + after);
        assert(count_of(dot, '.') == 1) by {
            assert(dot.drop_last().len() == 0);
            reveal_with_fuel(count_of, 2);
        }
        lemma_count_joined(before, dot, '.');
        lemma_count_joined(before + dot, after, '.');
        lemma_count_zero(after, '.');
        // The first dot of the padded text is that of the text.
        assert forall|q: int| 0 <= q < i implies x[q] != '.' by {
            assert(x[q] == a[q]);
        }
        assert(x[i] == a[i]);
        lemma_first_index_at(x, '.', i);
        assert(i == k);
        assert(before == x.take(i));
        assert(before == major);
        let padded_after = after + pad;
        assert(x.skip(i + 1) == padded_after);
        assert(padded_after == rest);
        // Its second dot is that of the padding.
        assert forall|q: int| 0 <= q < after.len() implies padded_after[q] != '.' by {
            assert(padded_after[q] == after[q]);
        }
        assert(padded_after[after.len() as int] == '.');
        lemma_first_index_at(padded_after, '.', after.len() as int);
        assert(after.len() == j);
        assert(after == padded_after.take(j));
        assert(after == minor);
        assert(padded_after.skip(j + 1) == seq!['0']);
        assert(patch + tail == seq!['0']);
        assert(patch.len() >= 1);
        assert((patch + tail).len() == patch.len() + tail.len());
        assert(tail.len() == 0);
        assert(patch + tail == patch);
        lemma_zero_is_a_version_number();
        lemma_numeric_triple(major, minor, seq!['0']);
        assert(x == dotted(dotted(major, minor), seq!['0']));
    }
}

/// What the comparison computes is version equivalence, given what the
/// parser is known to do: a text that it takes is the version written
/// out, and three version numbers joined by dots are taken as those
/// numbers.
pub proof fn lemma_agreement_is_equivalence(
    a: Seq<char>,
    b: Seq<char>,
    pa: Option<VersionParts>,
    pb: Option<VersionParts>,
)
    requires
        pa == semver_parse(normalized(a)),
        pb == semver_parse(normalized(b)),
        pa matches Some(v) ==> normalized(a) == rendered(v),
        pb matches Some(v) ==> normalized(b) == rendered(v),
        numeric_triple(normalized(a)) matches Some(t) ==> pa == Some(
            (t.0, t.1, t.2, Seq::<char>::empty(), Seq::<char>::empty()),
        ),
        numeric_triple(normalized(b)) matches Some(t) ==> pb == Some(
            (t.0, t.1, t.2, Seq::<char>::empty(), Seq::<char>::empty()),
        ),
    ensures
        versions_agree(pa, pb, a, b) == version_equivalent(a, b),
{
    let ta = numeric_triple(normalized(a));
    let tb = numeric_triple(normalized(b));
    if ta is Some && tb is Some {
    } else if pa is Some && pb is Some {
        let va = pa->0;
        let vb = pb->0;
        if va == vb {
            assert(normalized(a) == normalized(b));
            if normalized(a) != a {
                lemma_padded_and_written(a, va);
            }
            if normalized(b) != b {
                lemma_padded_and_written(b, vb);
            }
            assert(a == b);
        }
    }
}

/// Every spelling of a version number pads to the same three-component
/// text, which is a numeric triple.
pub proof fn lemma_padding_normalizes(n: Seq<char>, v: Seq<char>)
    requires
        is_version_number(n),
        is_padding_of(n, v),
    ensures
        normalized(v) == n + seq!['.', '0', '.', '0'],
        numeric_triple(normalized(v)) == Some((decimal_value(n) as u64, 0u64, 0u64)),
{
    let full = n + seq!['.', '0', '.', '0'];
    let k = n.len() as int;
    lemma_digits_hold_no_dot(n);
    if v == n {
    } else if v == n + seq!['.', '0'] {
        assert(v[k] == '.');
        assert(v.drop_last() == n.push('.'));
        assert(n.push('.').drop_last() == n);
        assert(count_of(n.push('.'), '.') == 1);
        assert(v.last() == '0');
        assert(count_of(v, '.') == 1);
        assert(v + seq!['.', '0'] == full);
    } else {
        assert(v == full);
        assert(v[k] == '.');
        assert(v.drop_last() == n + seq!['.', '0', '.']);
        assert(v.drop_last().drop_last() == n + seq!['.', '0']);
        assert(v.drop_last().drop_last().drop_last() == n.push('.'));
        assert(n.push('.').drop_last() == n);
        assert(count_of(n.push('.'), '.') == 1);
        assert(count_of(n + seq!['.', '0'], '.') == 1);
        assert(count_of(n + seq!['.', '0', '.'], '.') == 2);
        assert(v.last() == '0');
        assert(count_of(v, '.') == 2);
    }
    assert(normalized(v) == full);
    // The pieces of the padded text.
    let zero = seq!['0'];
    let tail = seq!['0', '.', '0'];
    lemma_first_index_at(full, '.', k);
    assert(full.take(k) == n);
    assert(full.skip(k + 1) == tail);
    lemma_first_index_at(tail, '.', 1);
    assert(tail.take(1) == zero);
    assert(tail.skip(2) == zero);
    lemma_first_index_at(zero, '.', 1);
    assert(split_on(zero, '.') == seq![zero]);
    assert(split_on(tail, '.') == seq![zero] + seq![zero]);
    assert(split_on(full, '.') == seq![n] + (seq![zero] + seq![zero]));
    assert(zero.drop_last().len() == 0);
    assert(decimal_value(zero) == 0) by {
        reveal_with_fuel(decimal_value, 2);
    }
    assert(is_version_number(zero));
}

/// A text of digits holds no dot.
pub proof fn lemma_digits_hold_no_dot(s: Seq<char>)
    requires
        all_digits(s),
    ensures
        count_of(s, '.') == 0,
        forall|i: int| 0 <= i < s.len() ==> s[i] != '.',
    decreases s.len(),
{
    if s.len() > 0 {
        lemma_digits_hold_no_dot(s.drop_last());
    }
}

/// Every text is equivalent to itself.
pub proof fn lemma_equivalent_reflexive(a: Seq<char>)
    ensures
        version_equivalent(a, a),
{
}

/// Equivalence does not depend on the order of the two texts.
pub proof fn lemma_equivalent_symmetric(a: Seq<char>, b: Seq<char>)
    ensures
        version_equivalent(a, b) == version_equivalent(b, a),
{
}

/// Where the parser takes neither padded text, or takes only one, the
/// texts are equivalent exactly when they are the same text.
pub proof fn lemma_unparsed_is_literal(a: Seq<char>, b: Seq<char>)
    ensures
        semver_parse(normalized(a)) is None || semver_parse(normalized(b)) is None
            ==> parsed_equivalent(a, b) == (a == b),
{
}

/// How often a character stands in two texts put together.
pub proof fn lemma_count_joined(s: Seq<char>, t: Seq<char>, c: char)
    ensures
        count_of(s + t, c) == count_of(s, c) + count_of(t, c),
    decreases t.len(),
{
    if t.len() == 0 {
        assert(s + t == s);
    } else {
        assert((s + t).drop_last() == s + t.drop_last());
        lemma_count_joined(s, t.drop_last(), c);
    }
}

/// Three version numbers joined by dots are a numeric triple with two
/// dots.
pub proof fn lemma_numeric_triple(n: Seq<char>, m: Seq<char>, p: Seq<char>)
    requires
        is_version_number(n),
        is_version_number(m),
        is_version_number(p),
    ensures
        numeric_triple(dotted(dotted(n, m), p)) == Some(
            (decimal_value(n) as u64, decimal_value(m) as u64, decimal_value(p) as u64),
        ),
        count_of(dotted(dotted(n, m), p), '.') == 2,
        count_of(dotted(n, m), '.') == 1,
        !all_digits(dotted(dotted(n, m), p)),
        !all_digits(dotted(n, m)),
{
    let x = dotted(dotted(n, m), p);
    let y = dotted(m, p);
    let dot = seq!['.'];
    lemma_digits_hold_no_dot(n);
    lemma_digits_hold_no_dot(m);
    lemma_digits_hold_no_dot(p);
    let k = n.len() as int;
    assert(x == n + (dot + y));
    lemma_first_index_at(x, '.', k);
    assert(x.take(k) == n);
    assert(x.skip(k + 1) == y);
    let j = m.len() as int;
    lemma_first_index_at(y, '.', j);
    assert(y.take(j) == m);
    assert(y.skip(j + 1) == p);
    lemma_first_index_at(p, '.', p.len() as int);
    assert(split_on(p, '.') == seq![p]);
    assert(split_on(y, '.') == seq![m] + seq![p]);
    assert(split_on(x, '.') == seq![n] + (seq![m] + seq![p]));
    assert(count_of(dot, '.') == 1) by {
        assert(dot.drop_last().len() == 0);
        reveal_with_fuel(count_of, 2);
    }
    lemma_count_joined(n, dot, '.');
    lemma_count_joined(n + dot, m, '.');
    lemma_count_joined(dotted(n, m), dot, '.');
    lemma_count_joined(dotted(n, m) + dot, p, '.');
    assert(x[k] == '.');
    assert(dotted(n, m)[k] == '.');
}

/// The text `0` is a version number, and the number is zero.
pub proof fn lemma_zero_is_a_version_number()
    ensures
        is_version_number(seq!['0']),
        decimal_value(seq!['0']) == 0,
{
    let zero = seq!['0'];
    assert(zero.drop_last().len() == 0);
    reveal_with_fuel(decimal_value, 2);
}

/// A version number alone denotes itself with minor and patch zero.
pub proof fn lemma_one_component(n: Seq<char>)
    requires
        is_version_number(n),
    ensures
        version_numbers(n) == Some((decimal_value(n) as u64, 0u64, 0u64)),
{
    lemma_padding_normalizes(n, n);
}

/// Two version numbers joined by a dot denote themselves with patch
/// zero, and so does the same text with `.0` behind it.
pub proof fn lemma_two_components(n: Seq<char>, m: Seq<char>)
    requires
        is_version_number(n),
        is_version_number(m),
    ensures
        version_numbers(dotted(n, m)) == Some(
            (decimal_value(n) as u64, decimal_value(m) as u64, 0u64),
        ),
        version_numbers(dotted(dotted(n, m), seq!['0'])) == Some(
            (decimal_value(n) as u64, decimal_value(m) as u64, 0u64),
        ),
{
    lemma_zero_is_a_version_number();
    lemma_numeric_triple(n, m, seq!['0']);
    assert(dotted(n, m) + seq!['.', '0'] == dotted(dotted(n, m), seq!['0']));
}

/// Three version numbers joined by dots denote themselves.
pub proof fn lemma_three_components(n: Seq<char>, m: Seq<char>, p: Seq<char>)
    requires
        is_version_number(n),
        is_version_number(m),
        is_version_number(p),
    ensures
        version_numbers(dotted(dotted(n, m), p)) == Some(
            (decimal_value(n) as u64, decimal_value(m) as u64, decimal_value(p) as u64),
        ),
{
    lemma_numeric_triple(n, m, p);
}

/// Version comparison on a text.
pub trait VersionCompare {
    /// The text that is compared.
    spec fn version_text(&self) -> Seq<char>;

    /// Whether this version is equivalent to `other`.
    fn version_eq(&self, other: &str) -> (r: bool)
        ensures
            r == version_equivalent(self.version_text(), other@),
            r == parsed_equivalent(self.version_text(), other@),
    ;
}

impl VersionCompare for String {
    open spec fn version_text(&self) -> Seq<char> {
        self@
    }

    fn version_eq(&self, other: &str) -> (r: bool) {
        equivalent(self.as_str(), other)
    }
}

} // verus!
