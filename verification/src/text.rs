//! Character-level text utilities with sequence-level specifications.
//!
//! Texts are handled as vectors of characters and specified as sequences
//! of characters; `chars_of` and `string_of` move between strings and
//! character vectors.

use vstd::prelude::*;

verus! {

/// `String::push` appends one character to the end of the string.
pub assume_specification[ String::push ](s: &mut String, ch: char)
    ensures
        final(s)@ == old(s)@.push(ch),
;

/// The characters of `s`, in order.
pub fn chars_of(s: &str) -> (v: Vec<char>)
    ensures
        v@ == s@,
{
    let mut v: Vec<char> = Vec::new();
    for c in it: s.chars()
        invariant
            it.seq() == s@,
            v@ == it.seq().take(it.index() as int),
    {
        v.push(c);
    }
    v
}

/// The string holding exactly the characters of `v`.
pub fn string_of(v: &Vec<char>) -> (s: String)
    ensures
        s@ == v@,
{
    let mut s = String::new();
    let mut i: usize = 0;
    while i < v.len()
        invariant
            i <= v.len(),
            s@ == v@.subrange(0, i as int),
        decreases v.len() - i,
    {
        s.push(v[i]);
        i = i + 1;
    }
    s
}

/// A copy of the characters of `v` from `from` up to, not including, `to`.
pub fn slice_of(v: &Vec<char>, from: usize, to: usize) -> (r: Vec<char>)
    requires
        from <= to <= v.len(),
    ensures
        r@ == v@.subrange(from as int, to as int),
{
    let mut r: Vec<char> = Vec::new();
    let mut i: usize = from;
    while i < to
        invariant
            from <= i <= to <= v.len(),
            r@ == v@.subrange(from as int, i as int),
        decreases to - i,
    {
        r.push(v[i]);
        i = i + 1;
    }
    r
}

/// Whether two character vectors hold the same text.
pub fn same_text(a: &Vec<char>, b: &Vec<char>) -> (r: bool)
    ensures
        r == (a@ == b@),
{
    if a.len() != b.len() {
        return false;
    }
    let mut i: usize = 0;
    while i < a.len()
        invariant
            i <= a.len(),
            a.len() == b.len(),
            a@.subrange(0, i as int) == b@.subrange(0, i as int),
        decreases a.len() - i,
    {
        if a[i] != b[i] {
            return false;
        }
        assert(a@.subrange(0, i + 1) == a@.subrange(0, i as int).push(a@[i as int]));
        assert(b@.subrange(0, i + 1) == b@.subrange(0, i as int).push(b@[i as int]));
        i = i + 1;
    }
    assert(a@ == a@.subrange(0, a.len() as int));
    assert(b@ == b@.subrange(0, b.len() as int));
    true
}

/// Whether two strings hold the same text.
pub fn same_str(a: &str, b: &str) -> (r: bool)
    ensures
        r == (a@ == b@),
{
    let x = chars_of(a);
    let y = chars_of(b);
    same_text(&x, &y)
}

/// An ASCII decimal digit.
pub open spec fn is_digit(c: char) -> bool {
    '0' <= c <= '9'
}

/// Whether a character is an ASCII decimal digit.
pub fn char_is_digit(c: char) -> (r: bool)
    ensures
        r == is_digit(c),
{
    '0' <= c && c <= '9'
}

/// Whether every character of `s` is an ASCII decimal digit.
pub open spec fn all_digits(s: Seq<char>) -> bool {
    forall|i: int| 0 <= i < s.len() ==> is_digit(s[i])
}

/// Whether every character of `v` is an ASCII decimal digit.
pub fn only_digits(v: &Vec<char>) -> (r: bool)
    ensures
        r == all_digits(v@),
{
    let mut i: usize = 0;
    while i < v.len()
        invariant
            i <= v.len(),
            forall|j: int| 0 <= j < i ==> is_digit(v@[j]),
        decreases v.len() - i,
    {
        if !char_is_digit(v[i]) {
            return false;
        }
        i = i + 1;
    }
    true
}

/// How many times `c` stands in `s`.
pub open spec fn count_of(s: Seq<char>, c: char) -> nat
    decreases s.len(),
{
    if s.len() == 0 {
        0
    } else {
        count_of(s.drop_last(), c) + if s.last() == c {
            1nat
        } else {
            0nat
        }
    }
}

/// How many times `c` stands in `v`.
pub fn count_char(v: &Vec<char>, c: char) -> (n: usize)
    ensures
        n == count_of(v@, c),
{
    let mut n: usize = 0;
    let mut i: usize = 0;
    while i < v.len()
        invariant
            i <= v.len(),
            n == count_of(v@.take(i as int), c),
            n <= i,
        decreases v.len() - i,
    {
        assert(v@.take(i + 1).drop_last() == v@.take(i as int));
        if v[i] == c {
            n = n + 1;
        }
        i = i + 1;
    }
    assert(v@.take(v.len() as int) == v@);
    n
}

/// `c` with an ASCII capital letter turned into its small letter.
pub open spec fn ascii_lower(c: char) -> char {
    if 'A' <= c <= 'Z' {
        ((c as u8) + 32) as u8 as char
    } else {
        c
    }
}

/// `c` with an ASCII capital letter turned into its small letter.
pub fn char_ascii_lower(c: char) -> (r: char)
    ensures
        r == ascii_lower(c),
{
    if 'A' <= c && c <= 'Z' {
        ((c as u8) + 32) as char
    } else {
        c
    }
}

/// Whether two texts are equal but for the case of ASCII letters.
pub open spec fn eq_ignore_case(a: Seq<char>, b: Seq<char>) -> bool {
    &&& a.len() == b.len()
    &&& forall|i: int| 0 <= i < a.len() ==> ascii_lower(a[i]) == ascii_lower(b[i])
}

/// Whether two texts are equal but for the case of ASCII letters.
pub fn same_ignoring_case(a: &Vec<char>, b: &Vec<char>) -> (r: bool)
    ensures
        r == eq_ignore_case(a@, b@),
{
    if a.len() != b.len() {
        return false;
    }
    let mut i: usize = 0;
    while i < a.len()
        invariant
            i <= a.len(),
            a.len() == b.len(),
            forall|j: int| 0 <= j < i ==> ascii_lower(a@[j]) == ascii_lower(b@[j]),
        decreases a.len() - i,
    {
        if char_ascii_lower(a[i]) != char_ascii_lower(b[i]) {
            return false;
        }
        i = i + 1;
    }
    true
}

/// White space as Unicode's `White_Space` property defines it.
pub open spec fn is_space(c: char) -> bool {
    ||| '\u{9}' <= c <= '\u{d}'
    ||| c == ' '
    ||| c == '\u{85}'
    ||| c == '\u{a0}'
    ||| c == '\u{1680}'
    ||| '\u{2000}' <= c <= '\u{200a}'
    ||| c == '\u{2028}'
    ||| c == '\u{2029}'
    ||| c == '\u{202f}'
    ||| c == '\u{205f}'
    ||| c == '\u{3000}'
}

/// Whether a character is white space.
pub fn char_is_space(c: char) -> (r: bool)
    ensures
        r == is_space(c),
{
    ('\u{9}' <= c && c <= '\u{d}') || c == ' ' || c == '\u{85}' || c == '\u{a0}' || c
        == '\u{1680}' || ('\u{2000}' <= c && c <= '\u{200a}') || c == '\u{2028}' || c
        == '\u{2029}' || c == '\u{202f}' || c == '\u{205f}' || c == '\u{3000}'
}

/// A class of characters to strip from the ends of a text.
pub enum CharSet {
    /// Unicode white space.
    Space,
    /// The one given character.
    Only(char),
}

impl CharSet {
    /// Whether `c` belongs to the class.
    pub open spec fn has(self, c: char) -> bool {
        match self {
            CharSet::Space => is_space(c),
            CharSet::Only(d) => c == d,
        }
    }

    /// Whether `c` belongs to the class.
    pub fn holds(&self, c: char) -> (r: bool)
        ensures
            r == self.has(c),
    {
        match self {
            CharSet::Space => char_is_space(c),
            CharSet::Only(d) => c == *d,
        }
    }
}

/// `s` without its leading characters of `set`.
pub open spec fn strip_start(s: Seq<char>, set: CharSet) -> Seq<char>
    decreases s.len(),
{
    if s.len() > 0 && set.has(s[0]) {
        strip_start(s.drop_first(), set)
    } else {
        s
    }
}

/// `s` without its trailing characters of `set`.
pub open spec fn strip_end(s: Seq<char>, set: CharSet) -> Seq<char>
    decreases s.len(),
{
    if s.len() > 0 && set.has(s.last()) {
        strip_end(s.drop_last(), set)
    } else {
        s
    }
}

/// `s` without leading and trailing characters of `set`.
pub open spec fn strip(s: Seq<char>, set: CharSet) -> Seq<char> {
    strip_end(strip_start(s, set), set)
}

/// `s` without leading and trailing white space.
pub open spec fn trim(s: Seq<char>) -> Seq<char> {
    strip(s, CharSet::Space)
}

/// `s` without leading and trailing occurrences of `c`.
pub open spec fn trim_char(s: Seq<char>, c: char) -> Seq<char> {
    strip(s, CharSet::Only(c))
}

/// Skipping `a` leading characters of `set` and stopping at a character
/// outside it gives `strip_start`.
pub proof fn lemma_strip_start_at(s: Seq<char>, set: CharSet, a: int)
    requires
        0 <= a <= s.len(),
        forall|i: int| 0 <= i < a ==> set.has(s[i]),
        a == s.len() || !set.has(s[a]),
    ensures
        strip_start(s, set) == s.subrange(a, s.len() as int),
    decreases a,
{
    if a == 0 {
        assert(s.subrange(0, s.len() as int) == s);
    } else {
        let t = s.drop_first();
        assert forall|i: int| 0 <= i < a - 1 implies set.has(t[i]) by {
            assert(t[i] == s[i + 1]);
        }
        lemma_strip_start_at(t, set, a - 1);
        assert(t.subrange(a - 1, t.len() as int) == s.subrange(a, s.len() as int));
    }
}

/// Dropping trailing characters of `set` down to length `b`, where the
/// character before `b` is outside it, gives `strip_end`.
pub proof fn lemma_strip_end_at(s: Seq<char>, set: CharSet, b: int)
    requires
        0 <= b <= s.len(),
        forall|i: int| b <= i < s.len() ==> set.has(s[i]),
        b == 0 || !set.has(s[b - 1]),
    ensures
        strip_end(s, set) == s.subrange(0, b),
    decreases s.len() - b,
{
    if b == s.len() {
        assert(s.subrange(0, s.len() as int) == s);
    } else {
        let t = s.drop_last();
        lemma_strip_end_at(t, set, b);
        assert(t.subrange(0, b) == s.subrange(0, b));
    }
}

/// What `strip_start` leaves is a part of the text that begins with no
/// character of the set.
pub proof fn lemma_strip_start_shape(s: Seq<char>, set: CharSet)
    ensures
        strip_start(s, set).len() <= s.len(),
        strip_start(s, set) == s.skip(s.len() - strip_start(s, set).len()),
        strip_start(s, set).len() > 0 ==> !set.has(strip_start(s, set)[0]),
    decreases s.len(),
{
    if s.len() > 0 && set.has(s[0]) {
        let t = s.drop_first();
        lemma_strip_start_shape(t, set);
        let r = strip_start(t, set);
        assert(t.skip(t.len() - r.len()) == s.skip(s.len() - r.len()));
    } else {
        assert(s.skip(0) == s);
    }
}

/// What `strip_end` leaves is a part of the text that ends with no
/// character of the set.
pub proof fn lemma_strip_end_shape(s: Seq<char>, set: CharSet)
    ensures
        strip_end(s, set).len() <= s.len(),
        strip_end(s, set) == s.take(strip_end(s, set).len() as int),
        strip_end(s, set).len() > 0 ==> !set.has(strip_end(s, set).last()),
    decreases s.len(),
{
    if s.len() > 0 && set.has(s.last()) {
        let t = s.drop_last();
        lemma_strip_end_shape(t, set);
        let r = strip_end(t, set);
        assert(t.take(r.len() as int) == s.take(r.len() as int));
    } else {
        assert(s.take(s.len() as int) == s);
    }
}

/// Stripping a stripped text changes nothing.
pub proof fn lemma_strip_idempotent(s: Seq<char>, set: CharSet)
    ensures
        strip(strip(s, set), set) == strip(s, set),
{
    let a = strip_start(s, set);
    let b = strip_end(a, set);
    lemma_strip_start_shape(s, set);
    lemma_strip_end_shape(a, set);
    // b is a prefix of a; where it is not empty it begins as a does.
    if b.len() > 0 {
        assert(b[0] == a[0]);
        assert(strip_start(b, set) == b);
        assert(strip_end(b, set) == b);
    } else {
        assert(strip_start(b, set) == b);
        assert(strip_end(b, set) == b);
    }
}

/// A copy of `v` without leading and trailing characters of `set`.
pub fn stripped(v: &Vec<char>, set: &CharSet) -> (r: Vec<char>)
    ensures
        r@ == strip(v@, *set),
{
    let n = v.len();
    let mut a: usize = 0;
    while a < n && set.holds(v[a])
        invariant
            a <= n,
            n == v.len(),
            forall|i: int| 0 <= i < a ==> set.has(v@[i]),
        decreases n - a,
    {
        a = a + 1;
    }
    let mut b: usize = n;
    while b > a && set.holds(v[b - 1])
        invariant
            a <= b <= n,
            n == v.len(),
            forall|i: int| b <= i < n ==> set.has(v@[i]),
        decreases b,
    {
        b = b - 1;
    }
    proof {
        lemma_strip_start_at(v@, *set, a as int);
        let t = v@.subrange(a as int, n as int);
        assert forall|i: int| b - a <= i < t.len() implies set.has(t[i]) by {
            assert(t[i] == v@[i + a]);
        }
        if b > a {
            assert(t[b - a - 1] == v@[b - 1]);
        }
        lemma_strip_end_at(t, *set, b - a);
        assert(t.subrange(0, b - a) == v@.subrange(a as int, b as int));
    }
    slice_of(v, a, b)
}

/// A copy of `v` without leading and trailing white space.
pub fn trimmed(v: &Vec<char>) -> (r: Vec<char>)
    ensures
        r@ == trim(v@),
{
    stripped(v, &CharSet::Space)
}

/// Whether `pat` stands in `s` at index `i`.
pub open spec fn occurs_at(s: Seq<char>, pat: Seq<char>, i: int) -> bool {
    0 <= i && i + pat.len() <= s.len() && s.subrange(i, i + pat.len()) == pat
}

/// Whether `pat` stands somewhere in `s`.
pub open spec fn contains(s: Seq<char>, pat: Seq<char>) -> bool {
    exists|i: int| occurs_at(s, pat, i)
}

/// Whether `s` begins with `pat`.
pub open spec fn starts_with(s: Seq<char>, pat: Seq<char>) -> bool {
    occurs_at(s, pat, 0)
}

/// Whether `s` ends with `pat`.
pub open spec fn ends_with(s: Seq<char>, pat: Seq<char>) -> bool {
    occurs_at(s, pat, s.len() - pat.len())
}

/// Whether `pat` stands in `v` at index `i`.
pub fn has_at(v: &Vec<char>, pat: &Vec<char>, i: usize) -> (r: bool)
    ensures
        r == occurs_at(v@, pat@, i as int),
{
    if pat.len() > v.len() || i > v.len() - pat.len() {
        return false;
    }
    let mut k: usize = 0;
    while k < pat.len()
        invariant
            k <= pat.len(),
            i + pat.len() <= v.len(),
            v@.subrange(i as int, i + k) == pat@.subrange(0, k as int),
        decreases pat.len() - k,
    {
        if v[i + k] != pat[k] {
            assert(v@.subrange(i as int, i + pat.len())[k as int] != pat@[k as int]);
            return false;
        }
        assert(v@.subrange(i as int, i + k + 1) == v@.subrange(i as int, i + k).push(
            v@[i + k],
        ));
        assert(pat@.subrange(0, k + 1) == pat@.subrange(0, k as int).push(pat@[k as int]));
        k = k + 1;
    }
    assert(pat@.subrange(0, pat.len() as int) == pat@);
    true
}

/// Whether `v` begins with `pat`.
pub fn has_prefix(v: &Vec<char>, pat: &Vec<char>) -> (r: bool)
    ensures
        r == starts_with(v@, pat@),
{
    has_at(v, pat, 0)
}

/// Whether `v` ends with `pat`.
pub fn has_suffix(v: &Vec<char>, pat: &Vec<char>) -> (r: bool)
    ensures
        r == ends_with(v@, pat@),
{
    if pat.len() > v.len() {
        return false;
    }
    has_at(v, pat, v.len() - pat.len())
}

/// Whether `pat` stands somewhere in `v`.
pub fn has_within(v: &Vec<char>, pat: &Vec<char>) -> (r: bool)
    ensures
        r == contains(v@, pat@),
{
    if pat.len() > v.len() {
        return false;
    }
    let last = v.len() - pat.len();
    let mut i: usize = 0;
    loop
        invariant
            i <= last,
            last == v.len() - pat.len(),
            forall|j: int| 0 <= j < i ==> !occurs_at(v@, pat@, j),
        decreases last - i,
    {
        if has_at(v, pat, i) {
            return true;
        }
        if i == last {
            return false;
        }
        i = i + 1;
    }
}

/// The index of the first `c` in `s`, or the length of `s` where it has none.
pub open spec fn first_index(s: Seq<char>, c: char) -> int
    decreases s.len(),
{
    if s.len() == 0 || s[0] == c {
        0
    } else {
        1 + first_index(s.drop_first(), c)
    }
}

/// `first_index` is the one index before which no `c` stands and at which
/// `c` stands or the text ends.
pub proof fn lemma_first_index_at(s: Seq<char>, c: char, k: int)
    requires
        0 <= k <= s.len(),
        forall|i: int| 0 <= i < k ==> s[i] != c,
        k == s.len() || s[k] == c,
    ensures
        first_index(s, c) == k,
    decreases k,
{
    if k > 0 {
        let t = s.drop_first();
        assert forall|i: int| 0 <= i < k - 1 implies t[i] != c by {
            assert(t[i] == s[i + 1]);
        }
        lemma_first_index_at(t, c, k - 1);
    }
}

/// The index of the first `c` at or after `from`, or the length of `v`.
pub fn find_from(v: &Vec<char>, c: char, from: usize) -> (k: usize)
    requires
        from <= v.len(),
    ensures
        from <= k <= v.len(),
        k == from + first_index(v@.skip(from as int), c),
{
    let mut k: usize = from;
    while k < v.len() && v[k] != c
        invariant
            from <= k <= v.len(),
            forall|i: int| from <= i < k ==> v@[i] != c,
        decreases v.len() - k,
    {
        k = k + 1;
    }
    proof {
        let t = v@.skip(from as int);
        assert forall|i: int| 0 <= i < k - from implies t[i] != c by {
            assert(t[i] == v@[i + from]);
        }
        lemma_first_index_at(t, c, k - from);
    }
    k
}

/// What stands after the last `c` in `s`: all of `s` where it has none.
pub open spec fn after_last(s: Seq<char>, c: char) -> Seq<char>
    decreases s.len(),
{
    if s.len() == 0 || s.last() == c {
        Seq::<char>::empty()
    } else {
        after_last(s.drop_last(), c).push(s.last())
    }
}

/// The part of `s` from index `k` on is `after_last` where it holds no `c`
/// and `c` stands just before it, or it is all of `s`.
pub proof fn lemma_after_last_at(s: Seq<char>, c: char, k: int)
    requires
        0 <= k <= s.len(),
        forall|i: int| k <= i < s.len() ==> s[i] != c,
        k == 0 || s[k - 1] == c,
    ensures
        after_last(s, c) == s.skip(k),
    decreases s.len() - k,
{
    if k == s.len() {
        assert(s.skip(k) == Seq::<char>::empty());
    } else {
        let t = s.drop_last();
        lemma_after_last_at(t, c, k);
        assert(t.skip(k).push(s.last()) == s.skip(k));
    }
}

/// A copy of what stands after the last `c` in `v`.
pub fn tail_after(v: &Vec<char>, c: char) -> (r: Vec<char>)
    ensures
        r@ == after_last(v@, c),
{
    let mut k: usize = v.len();
    while k > 0 && v[k - 1] != c
        invariant
            k <= v.len(),
            forall|i: int| k <= i < v.len() ==> v@[i] != c,
        decreases k,
    {
        k = k - 1;
    }
    proof {
        lemma_after_last_at(v@, c, k as int);
        assert(v@.skip(k as int) == v@.subrange(k as int, v.len() as int));
    }
    slice_of(v, k, v.len())
}

/// The pieces of `s` between occurrences of `c`: one more than `s` has
/// occurrences, empty pieces included.
pub open spec fn split_on(s: Seq<char>, c: char) -> Seq<Seq<char>>
    decreases s.len(),
{
    let k = first_index(s, c);
    if 0 <= k < s.len() {
        seq![s.take(k)] + split_on(s.skip(k + 1), c)
    } else {
        seq![s]
    }
}

/// A split has at least one piece.
pub proof fn lemma_split_has_a_piece(s: Seq<char>, c: char)
    ensures
        split_on(s, c).len() > 0,
{
}

/// The texts that a vector of character vectors holds.
pub open spec fn texts(v: Seq<Vec<char>>) -> Seq<Seq<char>> {
    Seq::new(v.len(), |i: int| v[i]@)
}

/// The pieces of `v` between occurrences of `c`.
pub fn split(v: &Vec<char>, c: char) -> (r: Vec<Vec<char>>)
    ensures
        texts(r@) == split_on(v@, c),
{
    let mut r: Vec<Vec<char>> = Vec::new();
    let mut start: usize = 0;
    assert(v@.skip(0) == v@);
    assert(texts(r@) + split_on(v@, c) == split_on(v@, c));
    loop
        invariant_except_break
            start <= v.len(),
            split_on(v@, c) == texts(r@) + split_on(v@.skip(start as int), c),
        ensures
            texts(r@) == split_on(v@, c),
        decreases v.len() - start,
    {
        let k = find_from(v, c, start);
        let piece = slice_of(v, start, k);
        let ghost rest = v@.skip(start as int);
        let ghost before = texts(r@);
        r.push(piece);
        assert(texts(r@) == before + seq![piece@]);
        assert(rest.take(k - start) == v@.subrange(start as int, k as int));
        if k == v.len() {
            break;
        }
        assert(rest.skip(k - start + 1) == v@.skip(k + 1));
        start = k + 1;
    }
    r
}

/// `l` without one trailing carriage return.
pub open spec fn strip_cr(l: Seq<char>) -> Seq<char> {
    if l.len() > 0 && l.last() == '\r' {
        l.drop_last()
    } else {
        l
    }
}

/// The lines of `s`: a line ends at a line feed, which is left out together
/// with a carriage return just before it; text after the last line feed is
/// a line as it stands, and an empty rest is none.
pub open spec fn lines(s: Seq<char>) -> Seq<Seq<char>>
    decreases s.len(),
{
    if s.len() == 0 {
        seq![]
    } else {
        let k = first_index(s, '\n');
        if 0 <= k < s.len() {
            seq![strip_cr(s.take(k))] + lines(s.skip(k + 1))
        } else {
            seq![s]
        }
    }
}

/// The lines of `v`.
pub fn split_lines(v: &Vec<char>) -> (r: Vec<Vec<char>>)
    ensures
        texts(r@) == lines(v@),
{
    let mut r: Vec<Vec<char>> = Vec::new();
    let mut start: usize = 0;
    assert(v@.skip(0) == v@);
    assert(texts(r@) + lines(v@) == lines(v@));
    while start < v.len()
        invariant
            start <= v.len(),
            lines(v@) == texts(r@) + lines(v@.skip(start as int)),
        decreases v.len() - start,
    {
        let k = find_from(v, '\n', start);
        let ghost rest = v@.skip(start as int);
        let ghost before = texts(r@);
        assert(rest.take(k - start) == v@.subrange(start as int, k as int));
        if k == v.len() {
            let piece = slice_of(v, start, k);
            r.push(piece);
            assert(texts(r@) == before + seq![piece@]);
            assert(rest == piece@);
            assert(v@.skip(k as int).len() == 0);
            start = k;
        } else {
            let end = if k > start && v[k - 1] == '\r' {
                k - 1
            } else {
                k
            };
            let piece = slice_of(v, start, end);
            r.push(piece);
            assert(piece@ == strip_cr(rest.take(k - start)));
            assert(texts(r@) == before + seq![piece@]);
            assert(rest.skip(k - start + 1) == v@.skip(k + 1));
            start = k + 1;
        }
    }
    r
}

/// `parts` put together with `sep` between each two neighbours.
pub open spec fn join(parts: Seq<Seq<char>>, sep: Seq<char>) -> Seq<char>
    decreases parts.len(),
{
    if parts.len() == 0 {
        seq![]
    } else if parts.len() == 1 {
        parts[0]
    } else {
        join(parts.drop_last(), sep) + sep + parts.last()
    }
}

/// Appends the characters of `extra` to `v`.
pub fn append(v: &mut Vec<char>, extra: &Vec<char>)
    ensures
        final(v)@ == old(v)@ + extra@,
{
    let mut i: usize = 0;
    while i < extra.len()
        invariant
            i <= extra.len(),
            v@ == old(v)@ + extra@.subrange(0, i as int),
        decreases extra.len() - i,
    {
        v.push(extra[i]);
        i = i + 1;
    }
    assert(extra@.subrange(0, extra.len() as int) == extra@);
}

/// The parts put together with `sep` between each two neighbours.
pub fn joined(parts: &Vec<Vec<char>>, sep: &Vec<char>) -> (r: Vec<char>)
    ensures
        r@ == join(texts(parts@), sep@),
{
    let mut r: Vec<char> = Vec::new();
    let mut i: usize = 0;
    while i < parts.len()
        invariant
            i <= parts.len(),
            r@ == join(texts(parts@).take(i as int), sep@),
        decreases parts.len() - i,
    {
        let ghost all = texts(parts@);
        assert(all.take(i + 1).drop_last() == all.take(i as int));
        assert(all.take(i + 1).last() == parts@[i as int]@);
        if i > 0 {
            append(&mut r, sep);
        }
        append(&mut r, &parts[i]);
        i = i + 1;
    }
    assert(texts(parts@).take(parts.len() as int) == texts(parts@));
    r
}

/// What stands after the first `c` in `s`: nothing where it has none.
pub open spec fn after_first(s: Seq<char>, c: char) -> Seq<char> {
    let k = first_index(s, c);
    if 0 <= k < s.len() {
        s.skip(k + 1)
    } else {
        Seq::<char>::empty()
    }
}

/// A copy of what stands after the first `c` in `v`.
pub fn tail_after_first(v: &Vec<char>, c: char) -> (r: Vec<char>)
    ensures
        r@ == after_first(v@, c),
{
    let k = find_from(v, c, 0);
    assert(v@.skip(0) == v@);
    if k < v.len() {
        assert(v@.skip(k + 1) == v@.subrange(k + 1, v.len() as int));
        slice_of(v, k + 1, v.len())
    } else {
        Vec::new()
    }
}

/// `s` without every leading repetition of `pat`, which is not empty.
pub open spec fn strip_prefix_all(s: Seq<char>, pat: Seq<char>) -> Seq<char>
    decreases s.len(),
{
    if pat.len() > 0 && starts_with(s, pat) {
        strip_prefix_all(s.skip(pat.len() as int), pat)
    } else {
        s
    }
}

/// `s` without every trailing repetition of `pat`, which is not empty.
pub open spec fn strip_suffix_all(s: Seq<char>, pat: Seq<char>) -> Seq<char>
    decreases s.len(),
{
    if pat.len() > 0 && ends_with(s, pat) {
        strip_suffix_all(s.take(s.len() - pat.len()), pat)
    } else {
        s
    }
}

/// A copy of `v` without every leading repetition of `pat`.
pub fn without_prefix_all(v: &Vec<char>, pat: &Vec<char>) -> (r: Vec<char>)
    ensures
        r@ == strip_prefix_all(v@, pat@),
{
    if pat.len() == 0 {
        return slice_of_all(v);
    }
    let mut start: usize = 0;
    assert(v@.skip(0) == v@);
    while has_at(v, pat, start)
        invariant
            start <= v.len(),
            pat.len() > 0,
            strip_prefix_all(v@, pat@) == strip_prefix_all(v@.skip(start as int), pat@),
        decreases v.len() - start,
    {
        let ghost rest = v@.skip(start as int);
        assert(rest.subrange(0, pat.len() as int) == v@.subrange(
            start as int,
            start + pat.len(),
        ));
        assert(rest.skip(pat.len() as int) == v@.skip(start + pat.len()));
        start = start + pat.len();
    }
    proof {
        let rest = v@.skip(start as int);
        if start + pat.len() <= v.len() {
            assert(rest.subrange(0, pat.len() as int) == v@.subrange(
                start as int,
                start + pat.len(),
            ));
        }
        assert(rest == v@.subrange(start as int, v.len() as int));
    }
    slice_of(v, start, v.len())
}

/// A copy of `v` without every trailing repetition of `pat`.
pub fn without_suffix_all(v: &Vec<char>, pat: &Vec<char>) -> (r: Vec<char>)
    ensures
        r@ == strip_suffix_all(v@, pat@),
{
    if pat.len() == 0 {
        return slice_of_all(v);
    }
    let mut end: usize = v.len();
    assert(v@.take(v.len() as int) == v@);
    while end >= pat.len() && has_at(v, pat, end - pat.len())
        invariant
            end <= v.len(),
            pat.len() > 0,
            strip_suffix_all(v@, pat@) == strip_suffix_all(v@.take(end as int), pat@),
        decreases end,
    {
        let ghost rest = v@.take(end as int);
        assert(rest.subrange(end - pat.len(), end as int) == v@.subrange(
            end - pat.len(),
            end as int,
        ));
        assert(rest.take(end - pat.len()) == v@.take(end - pat.len()));
        end = end - pat.len();
    }
    proof {
        let rest = v@.take(end as int);
        if end >= pat.len() {
            assert(rest.subrange(end - pat.len(), end as int) == v@.subrange(
                end - pat.len(),
                end as int,
            ));
        }
        assert(rest == v@.subrange(0, end as int));
    }
    slice_of(v, 0, end)
}

/// A copy of all of `v`.
pub fn slice_of_all(v: &Vec<char>) -> (r: Vec<char>)
    ensures
        r@ == v@,
{
    assert(v@.subrange(0, v.len() as int) == v@);
    slice_of(v, 0, v.len())
}

/// The text of two strings put together.
pub fn join_two(a: &str, b: &str) -> (r: String)
    ensures
        r@ == a@ + b@,
{
    let mut out = chars_of(a);
    append(&mut out, &chars_of(b));
    string_of(&out)
}

/// Whether `a` comes before `b` in the order of texts: character by
/// character by code point, a text before every text that it begins.
pub open spec fn text_lt(a: Seq<char>, b: Seq<char>) -> bool
    decreases a.len(),
{
    if b.len() == 0 {
        false
    } else if a.len() == 0 {
        true
    } else if a[0] != b[0] {
        a[0] < b[0]
    } else {
        text_lt(a.drop_first(), b.drop_first())
    }
}

/// Whether `a` comes before `b` or is `b`.
pub open spec fn text_le(a: Seq<char>, b: Seq<char>) -> bool {
    !text_lt(b, a)
}

/// Where two texts agree up to index `k`, their order is that of what
/// follows.
pub proof fn lemma_text_lt_skip(a: Seq<char>, b: Seq<char>, k: int)
    requires
        0 <= k <= a.len(),
        k <= b.len(),
        a.take(k) == b.take(k),
    ensures
        text_lt(a, b) == text_lt(a.skip(k), b.skip(k)),
    decreases k,
{
    if k == 0 {
        assert(a.skip(0) == a);
        assert(b.skip(0) == b);
    } else {
        assert(a[0] == a.take(k)[0]);
        assert(b[0] == b.take(k)[0]);
        let x = a.drop_first();
        let y = b.drop_first();
        assert(x.take(k - 1) == a.take(k).drop_first());
        assert(y.take(k - 1) == b.take(k).drop_first());
        lemma_text_lt_skip(x, y, k - 1);
        assert(x.skip(k - 1) == a.skip(k));
        assert(y.skip(k - 1) == b.skip(k));
    }
}

/// Whether `a` comes before `b` in the order of texts.
pub fn text_less(a: &Vec<char>, b: &Vec<char>) -> (r: bool)
    ensures
        r == text_lt(a@, b@),
{
    let mut k: usize = 0;
    while k < a.len() && k < b.len()
        invariant
            k <= a.len(),
            k <= b.len(),
            a@.take(k as int) == b@.take(k as int),
        decreases a.len() - k,
    {
        if a[k] != b[k] {
            proof {
                lemma_text_lt_skip(a@, b@, k as int);
            }
            return a[k] < b[k];
        }
        assert(a@.take(k + 1) == a@.take(k as int).push(a@[k as int]));
        assert(b@.take(k + 1) == b@.take(k as int).push(b@[k as int]));
        k = k + 1;
    }
    proof {
        lemma_text_lt_skip(a@, b@, k as int);
    }
    k < b.len()
}

/// No text comes before itself, and of two texts at most one comes before
/// the other.
pub proof fn lemma_text_lt_asymmetric(a: Seq<char>, b: Seq<char>)
    ensures
        !(text_lt(a, b) && text_lt(b, a)),
    decreases a.len(),
{
    if a.len() > 0 && b.len() > 0 && a[0] == b[0] {
        lemma_text_lt_asymmetric(a.drop_first(), b.drop_first());
    }
}

/// The order of texts is transitive.
pub proof fn lemma_text_le_transitive(a: Seq<char>, b: Seq<char>, c: Seq<char>)
    requires
        text_le(a, b),
        text_le(b, c),
    ensures
        text_le(a, c),
    decreases a.len(),
{
    if a.len() > 0 && b.len() > 0 && c.len() > 0 {
        if a[0] == b[0] && b[0] == c[0] {
            lemma_text_le_transitive(a.drop_first(), b.drop_first(), c.drop_first());
        }
    }
}

/// Of two different texts one comes before the other.
pub proof fn lemma_text_lt_total(a: Seq<char>, b: Seq<char>)
    ensures
        text_lt(a, b) || text_lt(b, a) || a == b,
    decreases a.len(),
{
    if a.len() > 0 && b.len() > 0 && a[0] == b[0] {
        lemma_text_lt_total(a.drop_first(), b.drop_first());
        if a.drop_first() == b.drop_first() {
            assert(a == seq![a[0]] + a.drop_first());
            assert(b == seq![b[0]] + b.drop_first());
        }
    } else if a.len() == 0 && b.len() == 0 {
        assert(a == b);
    }
}

/// The texts of a list of strings.
pub open spec fn string_texts(v: Seq<String>) -> Seq<Seq<char>> {
    Seq::new(v.len(), |i: int| v[i]@)
}

/// Whether a list of strings holds the text.
pub fn holds_text(list: &Vec<String>, key: &str) -> (r: bool)
    ensures
        r == string_texts(list@).contains(key@),
{
    let mut i: usize = 0;
    while i < list.len()
        invariant
            i <= list.len(),
            forall|j: int| 0 <= j < i ==> string_texts(list@)[j] != key@,
        decreases list.len() - i,
    {
        if same_str(list[i].as_str(), key) {
            assert(string_texts(list@)[i as int] == key@);
            return true;
        }
        i = i + 1;
    }
    false
}

/// The order of texts as a relation.
pub open spec fn text_order() -> spec_fn(Seq<char>, Seq<char>) -> bool {
    |a: Seq<char>, b: Seq<char>| text_le(a, b)
}

/// The order of texts is a total order.
pub proof fn lemma_text_order_total()
    ensures
        vstd::relations::total_ordering(text_order()),
{
    let r = text_order();
    assert forall|a: Seq<char>| #[trigger] r(a, a) by {
        lemma_text_lt_asymmetric(a, a);
    }
    assert forall|a: Seq<char>, b: Seq<char>| #[trigger] r(a, b) && #[trigger] r(b, a) implies a
        == b by {
        lemma_text_lt_total(a, b);
    }
    assert forall|a: Seq<char>, b: Seq<char>, c: Seq<char>| #[trigger]
        r(a, b) && #[trigger] r(b, c) implies r(a, c) by {
        lemma_text_le_transitive(a, b, c);
    }
    assert forall|a: Seq<char>, b: Seq<char>| #[trigger] r(a, b) || #[trigger] r(b, a) by {
        lemma_text_lt_asymmetric(a, b);
    }
}

/// A list in order with one more text put at its place: before the first
/// text that does not come before it.
pub open spec fn insert_text(sorted: Seq<Seq<char>>, x: Seq<char>) -> Seq<Seq<char>>
    decreases sorted.len(),
{
    if sorted.len() == 0 || !text_lt(sorted[0], x) {
        seq![x] + sorted
    } else {
        seq![sorted[0]] + insert_text(sorted.drop_first(), x)
    }
}

/// The texts of a list in the order of texts.
pub open spec fn sorted_texts(s: Seq<Seq<char>>) -> Seq<Seq<char>>
    decreases s.len(),
{
    if s.len() == 0 {
        s
    } else {
        insert_text(sorted_texts(s.drop_last()), s.last())
    }
}

/// Putting a text at its place keeps a list in order and adds the text
/// to what the list holds.
pub proof fn lemma_insert_text(sorted: Seq<Seq<char>>, x: Seq<char>)
    requires
        vstd::relations::sorted_by(sorted, text_order()),
    ensures
        vstd::relations::sorted_by(insert_text(sorted, x), text_order()),
        insert_text(sorted, x).to_multiset() == sorted.to_multiset().insert(x),
        insert_text(sorted, x).len() == sorted.len() + 1,
        forall|t: Seq<char>| #[trigger]
            insert_text(sorted, x).contains(t) <==> t == x || sorted.contains(t),
    decreases sorted.len(),
{
    let out = insert_text(sorted, x);
    let r = text_order();
    if sorted.len() == 0 || !text_lt(sorted[0], x) {
        assert(out == sorted.insert(0, x));
        vstd::seq_lib::to_multiset_insert(sorted, 0, x);
        assert forall|i: int, j: int| 0 <= i < j < out.len() implies #[trigger] r(
            out[i],
            out[j],
        ) by {
            if i == 0 {
                assert(r(x, sorted[0]));
                if j > 1 {
                    assert(r(sorted[0], sorted[j - 1]));
                    lemma_text_le_transitive(x, sorted[0], sorted[j - 1]);
                }
            } else {
                assert(r(sorted[i - 1], sorted[j - 1]));
            }
        }
        assert forall|t: Seq<char>| #[trigger] out.contains(t) <==> t == x || sorted.contains(
            t,
        ) by {
            if out.contains(t) {
                let i = choose|i: int| 0 <= i < out.len() && out[i] == t;
                if i > 0 {
                    assert(sorted[i - 1] == t);
                }
            }
            if sorted.contains(t) {
                let i = choose|i: int| 0 <= i < sorted.len() && sorted[i] == t;
                assert(out[i + 1] == t);
            }
            assert(out[0] == x);
        }
    } else {
        let rest = sorted.drop_first();
        assert forall|i: int, j: int| 0 <= i < j < rest.len() implies #[trigger] r(
            rest[i],
            rest[j],
        ) by {
            assert(r(sorted[i + 1], sorted[j + 1]));
        }
        lemma_insert_text(rest, x);
        let tail = insert_text(rest, x);
        assert(out == tail.insert(0, sorted[0]));
        vstd::seq_lib::to_multiset_insert(tail, 0, sorted[0]);
        vstd::seq_lib::to_multiset_insert(rest, 0, sorted[0]);
        assert(rest.insert(0, sorted[0]) == sorted);
        assert(out.to_multiset() == sorted.to_multiset().insert(x));
        assert forall|t: Seq<char>| #[trigger] out.contains(t) <==> t == x || sorted.contains(
            t,
        ) by {
            assert(tail.contains(t) <==> t == x || rest.contains(t));
            if out.contains(t) {
                let i = choose|i: int| 0 <= i < out.len() && out[i] == t;
                if i > 0 {
                    assert(tail[i - 1] == t);
                } else {
                    assert(sorted[0] == t);
                }
            }
            if tail.contains(t) {
                let i = choose|i: int| 0 <= i < tail.len() && tail[i] == t;
                assert(out[i + 1] == t);
            }
            if sorted.contains(t) {
                let i = choose|i: int| 0 <= i < sorted.len() && sorted[i] == t;
                if i > 0 {
                    assert(rest[i - 1] == t);
                } else {
                    assert(out[0] == t);
                }
            }
            if rest.contains(t) {
                let i = choose|i: int| 0 <= i < rest.len() && rest[i] == t;
                assert(sorted[i + 1] == t);
            }
        }
        assert forall|i: int, j: int| 0 <= i < j < out.len() implies #[trigger] r(
            out[i],
            out[j],
        ) by {
            if i == 0 {
                let t = out[j];
                assert(tail[j - 1] == t);
                assert(tail.contains(t));
                if t == x {
                    lemma_text_lt_asymmetric(sorted[0], x);
                } else {
                    assert(rest.contains(t));
                    let k = choose|k: int| 0 <= k < rest.len() && rest[k] == t;
                    assert(r(sorted[0], sorted[k + 1]));
                }
            } else {
                assert(r(tail[i - 1], tail[j - 1]));
            }
        }
    }
}

/// Sorting brings the texts in order and keeps each of them, as often as
/// it occurs.
pub proof fn lemma_sorted_texts(s: Seq<Seq<char>>)
    ensures
        vstd::relations::sorted_by(sorted_texts(s), text_order()),
        sorted_texts(s).to_multiset() == s.to_multiset(),
        sorted_texts(s).len() == s.len(),
        forall|t: Seq<char>| #[trigger] sorted_texts(s).contains(t) <==> s.contains(t),
    decreases s.len(),
{
    if s.len() > 0 {
        let head = s.drop_last();
        lemma_sorted_texts(head);
        lemma_insert_text(sorted_texts(head), s.last());
        assert(head.push(s.last()) == s);
        vstd::seq_lib::to_multiset_build(head, s.last());
        assert forall|t: Seq<char>| #[trigger] sorted_texts(s).contains(t) <==> s.contains(
            t,
        ) by {
            assert(sorted_texts(head).contains(t) <==> head.contains(t));
            if s.contains(t) {
                let i = choose|i: int| 0 <= i < s.len() && s[i] == t;
                if i < head.len() {
                    assert(head[i] == t);
                }
            }
            if head.contains(t) {
                let i = choose|i: int| 0 <= i < head.len() && head[i] == t;
                assert(s[i] == t);
            }
            if t == s.last() {
                assert(s[s.len() - 1] == t);
            }
        }
    }
}

/// The character of a decimal digit.
pub open spec fn digit_char(d: nat) -> char {
    (('0' as u8) + d) as u8 as char
}

/// A number in decimal digits, without leading zeros.
pub open spec fn decimal(n: nat) -> Seq<char>
    decreases n,
{
    if n < 10 {
        seq![digit_char(n)]
    } else {
        decimal(n / 10).push(digit_char(n % 10))
    }
}

/// Appends a number in decimal digits.
pub fn push_decimal(out: &mut Vec<char>, n: u128)
    ensures
        final(out)@ == old(out)@ + decimal(n as nat),
    decreases n,
{
    if n >= 10 {
        push_decimal(out, n / 10);
    }
    let d = (n % 10) as u8;
    let c = (48u8 + d) as char;
    assert(c == digit_char((n % 10) as nat));
    out.push(c);
    proof {
        if n >= 10 {
            assert(old(out)@ + decimal((n / 10) as nat).push(c) == (old(out)@ + decimal(
                (n / 10) as nat,
            )).push(c));
        } else {
            assert(old(out)@.push(c) == old(out)@ + seq![c]);
        }
    }
}

/// Appends the characters of a string.
pub fn push_str(out: &mut Vec<char>, s: &str)
    ensures
        final(out)@ == old(out)@ + s@,
{
    let extra = chars_of(s);
    append(out, &extra);
}

/// What `first_index` says: before it no `c` stands, and at it `c`
/// stands unless the text ends there.
pub proof fn lemma_first_index_bounds(s: Seq<char>, c: char)
    ensures
        0 <= first_index(s, c) <= s.len(),
        forall|i: int| 0 <= i < first_index(s, c) ==> s[i] != c,
        first_index(s, c) < s.len() ==> s[first_index(s, c)] == c,
    decreases s.len(),
{
    if s.len() == 0 || s[0] == c {
    } else {
        let t = s.drop_first();
        lemma_first_index_bounds(t, c);
        assert forall|i: int| 0 <= i < first_index(s, c) implies s[i] != c by {
            if i > 0 {
                assert(s[i] == t[i - 1]);
            }
        }
    }
}

/// A character stands no time in a text exactly where it stands at no
/// index of it.
pub proof fn lemma_count_zero(s: Seq<char>, c: char)
    ensures
        count_of(s, c) == 0 <==> (forall|i: int| 0 <= i < s.len() ==> s[i] != c),
    decreases s.len(),
{
    if s.len() > 0 {
        let head = s.drop_last();
        lemma_count_zero(head, c);
        if count_of(s, c) == 0 {
            assert forall|i: int| 0 <= i < s.len() implies s[i] != c by {
                if i < head.len() {
                    assert(head[i] == s[i]);
                }
            }
        }
        if forall|i: int| 0 <= i < s.len() ==> s[i] != c {
            assert forall|i: int| 0 <= i < head.len() implies head[i] != c by {
                assert(head[i] == s[i]);
            }
        }
    }
}

/// The decimal digits of a number are digits, at least one, and begin
/// with a zero only for zero.
pub proof fn lemma_decimal_digits(n: nat)
    ensures
        decimal(n).len() >= 1,
        all_digits(decimal(n)),
        n >= 1 ==> decimal(n)[0] != '0',
        n < 10 ==> decimal(n).len() == 1,
    decreases n,
{
    if n >= 10 {
        lemma_decimal_digits(n / 10);
        let head = decimal(n / 10);
        let d = digit_char(n % 10);
        assert(is_digit(d));
        assert forall|i: int| 0 <= i < decimal(n).len() implies is_digit(decimal(n)[i]) by {
            if i < head.len() {
                assert(decimal(n)[i] == head[i]);
            }
        }
        assert(decimal(n)[0] == head[0]);
    } else {
        assert(is_digit(digit_char(n)));
        assert(decimal(n)[0] == digit_char(n));
    }
}

} // verus!
