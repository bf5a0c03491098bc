//! Running one unit of work for each repository, a bounded number at a
//! time, and putting the outcomes together.
//!
//! The units themselves run outside this library. The scheduler decides
//! which unit may start and records how each one ended.

pub use crate::git_manager::{repo_short_name, short_name};
use crate::git_manager::{Ending, Outcome, SyncError, SyncFault};
use crate::text::{chars_of, split, split_on, string_of, string_texts, texts, trim, trimmed};
use vstd::prelude::*;

verus! {

/// The limit used where the number of processors cannot be told.
pub const FALLBACK_LIMIT: usize = 4;

/// The number of units that may run at a time: the number of processors
/// where it is known, else four.
pub fn default_limit(processors: Option<usize>) -> (r: usize)
    ensures
        r == match processors {
            Some(n) => n,
            None => FALLBACK_LIMIT,
        },
{
    match processors {
        Some(n) => n,
        None => FALLBACK_LIMIT,
    }
}

/// The schedule of a batch of units, numbered from zero. A unit holds a
/// slot from the moment it is started until its outcome is recorded.
pub struct Scheduler<T> {
    /// How many units may hold a slot at a time.
    pub limit: usize,
    /// The units below this number have been started.
    pub next: usize,
    /// The units that hold a slot.
    pub running: Vec<usize>,
    /// For each unit of the batch, its outcome once it has ended.
    pub outcomes: Vec<Option<T>>,
}

impl<T> Scheduler<T> {
    /// How many units the batch has.
    pub open spec fn total(&self) -> int {
        self.outcomes@.len() as int
    }

    /// How many units hold a slot.
    pub open spec fn holding(&self) -> int {
        self.running@.len() as int
    }

    /// Whether a unit holds a slot.
    pub open spec fn holds(&self, unit: int) -> bool {
        self.running@.contains(unit as usize) && 0 <= unit <= usize::MAX
    }

    /// Whether every unit has ended.
    pub open spec fn done(&self) -> bool {
        self.next == self.total() && self.holding() == 0
    }

    /// The schedule is sound: no more units hold a slot than the limit
    /// allows, each holds at most one, and the units that were started
    /// are those that hold a slot and those whose outcome is recorded.
    pub open spec fn wf(&self) -> bool {
        &&& self.holding() <= self.limit
        &&& self.next <= self.total()
        &&& self.running@.no_duplicates()
        &&& forall|k: int|
            0 <= k < self.running@.len() ==> (#[trigger] self.running@[k]) < self.next
        &&& forall|i: int|
            0 <= i < self.total() ==> ((#[trigger] self.outcomes@[i]) is Some <==> i < self.next
                && !self.running@.contains(i as usize))
    }

    /// Bounded concurrency: in a sound schedule the units that hold a
    /// slot are never more than the limit.
    pub proof fn lemma_within_limit(&self)
        requires
            self.wf(),
        ensures
            self.holding() <= self.limit,
    {
    }

    /// The schedule of a batch of `total` units of which `limit` may run
    /// at a time.
    pub fn new(total: usize, limit: usize) -> (r: Self)
        ensures
            r.wf(),
            r.total() == total,
            r.limit == limit,
            r.next == 0,
            r.holding() == 0,
    {
        let mut outcomes: Vec<Option<T>> = Vec::new();
        let mut i: usize = 0;
        while i < total
            invariant
                i <= total,
                outcomes@.len() == i,
                forall|j: int| 0 <= j < i ==> (#[trigger] outcomes@[j]) is None,
            decreases total - i,
        {
            outcomes.push(None);
            i = i + 1;
        }
        Scheduler { limit, next: 0, running: Vec::new(), outcomes }
    }

    /// Whether a unit holds a slot.
    pub fn is_running(&self, unit: usize) -> (r: bool)
        ensures
            r == self.running@.contains(unit),
    {
        let mut k: usize = 0;
        while k < self.running.len()
            invariant
                k <= self.running.len(),
                forall|j: int| 0 <= j < k ==> self.running@[j] != unit,
            decreases self.running.len() - k,
        {
            if self.running[k] == unit {
                return true;
            }
            k = k + 1;
        }
        false
    }

    /// Whether the schedule is sound. A schedule that `new` made and that
    /// only its own methods changed is.
    pub fn is_sound(&self) -> (r: bool)
        ensures
            r == self.wf(),
    {
        if self.running.len() > self.limit || self.next > self.outcomes.len() {
            return false;
        }
        let mut k: usize = 0;
        while k < self.running.len()
            invariant
                k <= self.running.len(),
                forall|x: int| 0 <= x < k ==> (#[trigger] self.running@[x]) < self.next,
                forall|x: int, y: int|
                    0 <= x < y < k ==> self.running@[x] != self.running@[y],
            decreases self.running.len() - k,
        {
            if self.running[k] >= self.next {
                return false;
            }
            let mut j: usize = 0;
            while j < k
                invariant
                    j <= k < self.running.len(),
                    forall|x: int| 0 <= x < j ==> self.running@[x] != self.running@[k as int],
                decreases k - j,
            {
                if self.running[j] == self.running[k] {
                    return false;
                }
                j = j + 1;
            }
            k = k + 1;
        }
        let mut i: usize = 0;
        while i < self.outcomes.len()
            invariant
                i <= self.outcomes.len(),
                forall|x: int|
                    0 <= x < i ==> ((#[trigger] self.outcomes@[x]) is Some <==> x < self.next
                        && !self.running@.contains(x as usize)),
            decreases self.outcomes.len() - i,
        {
            let ended = self.outcomes[i].is_some();
            let expected = i < self.next && !self.is_running(i);
            if ended != expected {
                return false;
            }
            i = i + 1;
        }
        true
    }

    /// Whether every unit has ended.
    pub fn is_done(&self) -> (r: bool)
        ensures
            r == self.done(),
    {
        self.next == self.outcomes.len() && self.running.len() == 0
    }

    /// Starts the next unit where one is left and a slot is free, and
    /// gives its number. Otherwise nothing changes.
    pub fn start_next(&mut self) -> (r: Option<usize>)
        requires
            old(self).wf(),
        ensures
            final(self).wf(),
            final(self).limit == old(self).limit,
            final(self).outcomes == old(self).outcomes,
            r is Some <==> old(self).next < old(self).total() && old(self).holding() < old(self).limit,
            match r {
                Some(unit) => unit == old(self).next && final(self).next == unit + 1 && final(self).running@ == old(self).running@.push(unit),
                None => final(self).next == old(self).next && final(self).running == old(self).running,
            },
    {
        if self.next < self.outcomes.len() && self.running.len() < self.limit {
            let unit = self.next;
            let ghost before = self.running@;
            self.running.push(unit);
            self.next = unit + 1;
            proof {
                assert(!before.contains(unit)) by {
                    if before.contains(unit) {
                        let k = choose|k: int| 0 <= k < before.len() && before[k] == unit;
                        assert(old(self).running@[k] < old(self).next);
                    }
                }
                assert forall|a: int, b: int|
                    0 <= a < self.running@.len() && 0 <= b < self.running@.len() && a
                        != b implies self.running@[a] != self.running@[b] by {
                    if a < before.len() && b < before.len() {
                        assert(before[a] != before[b]);
                    } else if a < before.len() {
                        assert(before.contains(before[a]));
                    } else if b < before.len() {
                        assert(before.contains(before[b]));
                    }
                }
                assert forall|k: int| 0 <= k < self.running@.len() implies (
                #[trigger] self.running@[k]) < self.next by {
                    if k < before.len() {
                        assert(old(self).running@[k] < old(self).next);
                    }
                }
                assert forall|i: int| 0 <= i < self.total() implies ((
                #[trigger] self.outcomes@[i]) is Some <==> i < self.next
                    && !self.running@.contains(i as usize)) by {
                    assert(old(self).outcomes@[i] is Some <==> i < old(self).next
                        && !before.contains(i as usize));
                    if before.contains(i as usize) {
                        let k = choose|k: int| 0 <= k < before.len() && before[k] == i as usize;
                        assert(self.running@[k] == i as usize);
                    }
                    if self.running@.contains(i as usize) && i != unit {
                        let k = choose|k: int|
                            0 <= k < self.running@.len() && self.running@[k] == i as usize;
                        assert(before[k] == i as usize);
                    }
                    if i == unit {
                        assert(self.running@[before.len() as int] == unit);
                    }
                }
            }
            Some(unit)
        } else {
            None
        }
    }

    /// Records the outcome of a unit that holds a slot and frees the slot,
    /// whatever the outcome is. For a unit that holds none, nothing
    /// changes and the answer is `false`.
    pub fn complete(&mut self, unit: usize, outcome: T) -> (r: bool)
        requires
            old(self).wf(),
        ensures
            final(self).wf(),
            final(self).limit == old(self).limit,
            final(self).next == old(self).next,
            final(self).total() == old(self).total(),
            r == old(self).running@.contains(unit),
            r ==> final(self).outcomes@ == old(self).outcomes@.update(unit as int, Some(outcome))
                && final(self).holding() == old(self).holding() - 1 && !final(self).running@.contains(unit),
            !r ==> final(self).outcomes == old(self).outcomes && final(self).running == old(self).running,
            forall|other: usize|
                other != unit ==> (final(self).running@.contains(other) <==> old(self).running@.contains(other)),
    {
        let mut k: usize = 0;
        while k < self.running.len()
            invariant
                k <= self.running.len(),
                *self == *old(self),
                self.wf(),
                forall|j: int| 0 <= j < k ==> self.running@[j] != unit,
            decreases self.running.len() - k,
        {
            if self.running[k] == unit {
                let ghost before = self.running@;
                assert(before[k as int] < self.next);
                self.running.remove(k);
                self.outcomes.set(unit, Some(outcome));
                proof {
                    let now = self.running@;
                    assert(now == before.remove(k as int));
                    assert forall|other: usize| other != unit implies (now.contains(other)
                        <==> before.contains(other)) by {
                        if now.contains(other) {
                            let j = choose|j: int| 0 <= j < now.len() && now[j] == other;
                            if j < k {
                                assert(before[j] == other);
                            } else {
                                assert(before[j + 1] == other);
                            }
                        }
                        if before.contains(other) {
                            let j = choose|j: int| 0 <= j < before.len() && before[j] == other;
                            if j < k {
                                assert(now[j] == other);
                            } else {
                                assert(now[j - 1] == other);
                            }
                        }
                    }
                    assert(!now.contains(unit)) by {
                        if now.contains(unit) {
                            let j = choose|j: int| 0 <= j < now.len() && now[j] == unit;
                            if j < k {
                                assert(before[j] == unit);
                            } else {
                                assert(before[j + 1] == unit);
                                assert(before[j + 1] != before[k as int]);
                            }
                        }
                    }
                    assert forall|a: int, b: int|
                        0 <= a < now.len() && 0 <= b < now.len() && a != b implies now[a]
                        != now[b] by {
                        let x = if a < k {
                            a
                        } else {
                            a + 1
                        };
                        let y = if b < k {
                            b
                        } else {
                            b + 1
                        };
                        assert(before[x] != before[y]);
                    }
                    assert forall|j: int| 0 <= j < now.len() implies (#[trigger] now[j])
                        < self.next by {
                        if j < k {
                            assert(before[j] < self.next);
                        } else {
                            assert(before[j + 1] < self.next);
                        }
                    }
                    assert forall|i: int| 0 <= i < self.total() implies ((
                    #[trigger] self.outcomes@[i]) is Some <==> i < self.next && !now.contains(
                        i as usize,
                    )) by {
                        assert(old(self).outcomes@[i] is Some <==> i < old(self).next
                            && !before.contains(i as usize));
                    }
                    assert(before.contains(unit));
                }
                return true;
            }
            k = k + 1;
        }
        proof {
            assert(!self.running@.contains(unit));
        }
        false
    }
}

impl<T> Scheduler<T> {
    /// Hands out the outcomes of a batch in which every unit has ended,
    /// in the order of the units.
    pub fn take_outcomes(self) -> (r: Vec<T>)
        requires
            self.wf(),
            self.done(),
        ensures
            r@.len() == self.total(),
            forall|i: int| 0 <= i < r@.len() ==> self.outcomes@[i] == Some(#[trigger] r@[i]),
    {
        let ghost all = self.outcomes@;
        let mut rest = self.outcomes;
        let mut reversed: Vec<T> = Vec::new();
        proof {
            assert forall|i: int| 0 <= i < all.len() implies (#[trigger] all[i]) is Some by {
                assert(self.running@.len() == 0);
                assert(!self.running@.contains(i as usize));
            }
        }
        while rest.len() > 0
            invariant
                rest@ == all.take(rest@.len() as int),
                rest@.len() <= all.len(),
                reversed@.len() == all.len() - rest@.len(),
                forall|i: int| 0 <= i < all.len() ==> (#[trigger] all[i]) is Some,
                forall|j: int|
                    0 <= j < reversed@.len() ==> all[all.len() - 1 - j] == Some(
                        #[trigger] reversed@[j],
                    ),
            decreases rest@.len(),
        {
            let ghost n = rest@.len();
            let last = rest.pop();
            assert(rest@ == all.take(n - 1));
            assert(last == Some(all[n - 1]));
            match last {
                Some(Some(value)) => {
                    reversed.push(value);
                },
                _ => {
                    assert(all[n - 1] is Some);
                    assert(false);
                },
            }
        }
        let mut out: Vec<T> = Vec::new();
        let ghost back = reversed@;
        while reversed.len() > 0
            invariant
                reversed@ == back.take(reversed@.len() as int),
                reversed@.len() <= back.len(),
                back.len() == all.len(),
                out@.len() == back.len() - reversed@.len(),
                forall|j: int| 0 <= j < back.len() ==> all[all.len() - 1 - j] == Some(back[j]),
                forall|i: int| 0 <= i < out@.len() ==> all[i] == Some(#[trigger] out@[i]),
            decreases reversed@.len(),
        {
            let ghost n = reversed@.len();
            let last = reversed.pop();
            assert(reversed@ == back.take(n - 1));
            match last {
                Some(value) => {
                    assert(value == back[n - 1]);
                    assert(all[all.len() - 1 - (n - 1)] == Some(back[n - 1]));
                    out.push(value);
                },
                None => {
                    assert(false);
                },
            }
        }
        out
    }
}

/// How the unit of work of one repository ended.
#[derive(Debug)]
pub struct PerRepoOutcome<T, E> {
    /// The short name of the repository.
    pub repo: String,
    /// What the unit brought, or why it failed.
    pub result: Result<T, E>,
}

/// Gives each result of a batch the short name of its repository, in the
/// order of the repositories.
pub fn name_outcomes<T, E>(locations: &Vec<String>, results: Vec<Result<T, E>>) -> (r: Vec<
    PerRepoOutcome<T, E>,
>)
    requires
        locations@.len() == results@.len(),
    ensures
        r@.len() == results@.len(),
        forall|i: int|
            0 <= i < r@.len() ==> (#[trigger] r@[i]).repo@ == short_name(locations@[i]@)
                && r@[i].result == results@[i],
{
    let ghost all = results@;
    let mut rest = results;
    let mut out: Vec<PerRepoOutcome<T, E>> = Vec::new();
    assert(all.skip(0) == all);
    while rest.len() > 0
        invariant
            out@.len() + rest@.len() == all.len(),
            locations@.len() == all.len(),
            rest@ == all.skip(out@.len() as int),
            forall|i: int|
                0 <= i < out@.len() ==> (#[trigger] out@[i]).repo@ == short_name(locations@[i]@)
                    && out@[i].result == all[i],
        decreases rest@.len(),
    {
        let k = out.len();
        let result = rest.remove(0);
        assert(result == all[k as int]);
        assert(rest@ == all.skip(k + 1));
        let item = PerRepoOutcome { repo: repo_short_name(locations[k].as_str()), result };
        out.push(item);
    }
    out
}

/// The place of a name in a list in order: the index of the first entry
/// whose name does not come before it.
pub open spec fn place_of<T, E>(sorted: Seq<PerRepoOutcome<T, E>>, name: Seq<char>) -> int
    decreases sorted.len(),
{
    if sorted.len() == 0 || !crate::text::text_lt(sorted[0].repo@, name) {
        0
    } else {
        1 + place_of(sorted.drop_first(), name)
    }
}

/// The outcomes put in the order of the repositories' names. Outcomes of
/// one name keep the order they had.
pub open spec fn sorted_by_repo<T, E>(s: Seq<PerRepoOutcome<T, E>>) -> Seq<PerRepoOutcome<T, E>>
    decreases s.len(),
{
    if s.len() == 0 {
        s
    } else {
        let rest = sorted_by_repo(s.drop_first());
        rest.insert(place_of(rest, s[0].repo@), s[0])
    }
}

/// Whether the names of the outcomes never go down.
pub open spec fn in_order<T, E>(s: Seq<PerRepoOutcome<T, E>>) -> bool {
    forall|i: int, j: int|
        0 <= i < j < s.len() ==> crate::text::text_le(
            (#[trigger] s[i]).repo@,
            (#[trigger] s[j]).repo@,
        )
}

/// What `place_of` says: every entry before the place comes before the
/// name, and the entry at the place does not.
pub proof fn lemma_place_of<T, E>(sorted: Seq<PerRepoOutcome<T, E>>, name: Seq<char>)
    ensures
        0 <= place_of(sorted, name) <= sorted.len(),
        forall|k: int|
            0 <= k < place_of(sorted, name) ==> crate::text::text_lt(
                (#[trigger] sorted[k]).repo@,
                name,
            ),
        place_of(sorted, name) < sorted.len() ==> !crate::text::text_lt(
            sorted[place_of(sorted, name)].repo@,
            name,
        ),
    decreases sorted.len(),
{
    if sorted.len() == 0 || !crate::text::text_lt(sorted[0].repo@, name) {
    } else {
        let rest = sorted.drop_first();
        lemma_place_of(rest, name);
        assert forall|k: int| 0 <= k < place_of(sorted, name) implies crate::text::text_lt(
            (#[trigger] sorted[k]).repo@,
            name,
        ) by {
            if k > 0 {
                assert(sorted[k] == rest[k - 1]);
            }
        }
    }
}

/// Sorting brings the outcomes in order and keeps each of them, as often
/// as it occurs.
pub proof fn lemma_sorted_by_repo<T, E>(s: Seq<PerRepoOutcome<T, E>>)
    ensures
        in_order(sorted_by_repo(s)),
        sorted_by_repo(s).len() == s.len(),
        sorted_by_repo(s).to_multiset() == s.to_multiset(),
    decreases s.len(),
{
    broadcast use vstd::seq_lib::to_multiset_insert;

    if s.len() == 0 {
    } else {
        let rest = sorted_by_repo(s.drop_first());
        lemma_sorted_by_repo(s.drop_first());
        let x = s[0];
        let p = place_of(rest, x.repo@);
        lemma_place_of(rest, x.repo@);
        let out = rest.insert(p, x);
        assert forall|i: int, j: int| 0 <= i < j < out.len() implies crate::text::text_le(
            (#[trigger] out[i]).repo@,
            (#[trigger] out[j]).repo@,
        ) by {
            if j < p {
                assert(out[i] == rest[i] && out[j] == rest[j]);
            } else if j == p {
                assert(out[i] == rest[i]);
                crate::text::lemma_text_lt_asymmetric(rest[i].repo@, x.repo@);
            } else if i < p {
                assert(out[i] == rest[i] && out[j] == rest[j - 1]);
            } else if i == p {
                assert(out[j] == rest[j - 1]);
                assert(crate::text::text_le(x.repo@, rest[p].repo@));
                if j - 1 > p {
                    assert(crate::text::text_le(rest[p].repo@, rest[j - 1].repo@));
                    crate::text::lemma_text_le_transitive(
                        x.repo@,
                        rest[p].repo@,
                        rest[j - 1].repo@,
                    );
                }
            } else {
                assert(out[i] == rest[i - 1] && out[j] == rest[j - 1]);
            }
        }
        assert(s == seq![x] + s.drop_first());
        assert(out.to_multiset() == rest.to_multiset().insert(x));
        assert(s.to_multiset() == s.drop_first().to_multiset().insert(x)) by {
            vstd::seq_lib::to_multiset_insert(s.drop_first(), 0, x);
            assert(s.drop_first().insert(0, x) == s);
        }
    }
}

/// Puts the outcomes in the order of the repositories' names, by code
/// point; outcomes of one name keep the order they had.
pub fn sort_by_repo<T, E>(outcomes: Vec<PerRepoOutcome<T, E>>) -> (r: Vec<PerRepoOutcome<T, E>>)
    ensures
        r@ == sorted_by_repo(outcomes@),
        in_order(r@),
        r@.to_multiset() == outcomes@.to_multiset(),
{
    let ghost all = outcomes@;
    let mut rest = outcomes;
    let mut out: Vec<PerRepoOutcome<T, E>> = Vec::new();
    assert(all.skip(all.len() as int) == Seq::<PerRepoOutcome<T, E>>::empty());
    while rest.len() > 0
        invariant
            rest@.len() <= all.len(),
            rest@ == all.take(rest@.len() as int),
            out@ == sorted_by_repo(all.skip(rest@.len() as int)),
        decreases rest@.len(),
    {
        let ghost n = rest@.len();
        let last = rest.pop();
        assert(rest@ == all.take(n - 1));
        match last {
            Some(x) => {
                assert(x == all[n - 1]);
                let name = chars_of(x.repo.as_str());
                let mut p: usize = 0;
                while p < out.len() && crate::text::text_less(
                    &chars_of(out[p].repo.as_str()),
                    &name,
                )
                    invariant
                        p <= out.len(),
                        name@ == x.repo@,
                        forall|k: int|
                            0 <= k < p ==> crate::text::text_lt(
                                (#[trigger] out@[k]).repo@,
                                x.repo@,
                            ),
                    decreases out.len() - p,
                {
                    p = p + 1;
                }
                proof {
                    lemma_place_at(out@, x.repo@, p as int);
                    let tail = all.skip(n - 1);
                    assert(tail[0] == x);
                    assert(tail.drop_first() == all.skip(n as int));
                }
                out.insert(p, x);
            },
            None => {
                assert(false);
            },
        }
    }
    proof {
        assert(all.skip(0) == all);
        lemma_sorted_by_repo(all);
    }
    out
}

/// The index before which every entry comes before the name, and at which
/// the entry does not, is the place of the name.
pub proof fn lemma_place_at<T, E>(sorted: Seq<PerRepoOutcome<T, E>>, name: Seq<char>, p: int)
    requires
        0 <= p <= sorted.len(),
        forall|k: int| 0 <= k < p ==> crate::text::text_lt((#[trigger] sorted[k]).repo@, name),
        p < sorted.len() ==> !crate::text::text_lt(sorted[p].repo@, name),
    ensures
        place_of(sorted, name) == p,
    decreases p,
{
    if p > 0 {
        let rest = sorted.drop_first();
        assert(crate::text::text_lt(sorted[0].repo@, name));
        assert forall|k: int| 0 <= k < p - 1 implies crate::text::text_lt(
            (#[trigger] rest[k]).repo@,
            name,
        ) by {
            assert(rest[k] == sorted[k + 1]);
        }
        lemma_place_at(rest, name, p - 1);
    }
}

/// The locations in a list separated by commas, each trimmed.
pub open spec fn listed_locations(list: Seq<char>) -> Seq<Seq<char>> {
    let pieces = split_on(list, ',');
    Seq::new(pieces.len(), |i: int| trim(pieces[i]))
}

/// Reads a list of locations separated by commas.
pub fn parse_repo_list(list: &str) -> (r: Vec<String>)
    ensures
        string_texts(r@) == listed_locations(list@),
{
    let pieces = split(&chars_of(list), ',');
    let mut out: Vec<String> = Vec::new();
    let mut i: usize = 0;
    while i < pieces.len()
        invariant
            i <= pieces.len(),
            texts(pieces@) == split_on(list@, ','),
            string_texts(out@) == listed_locations(list@).take(i as int),
        decreases pieces.len() - i,
    {
        assert(texts(pieces@)[i as int] == pieces@[i as int]@);
        let item = string_of(&trimmed(&pieces[i]));
        let ghost before = string_texts(out@);
        out.push(item);
        assert(string_texts(out@) == before.push(item@));
        assert(listed_locations(list@).take(i + 1) == listed_locations(list@).take(
            i as int,
        ).push(item@));
        i = i + 1;
    }
    assert(listed_locations(list@).take(pieces.len() as int) == listed_locations(list@));
    out
}

/// The candidates whose probe succeeded among the first `n`, in order.
pub open spec fn reachable_upto(candidates: Seq<Seq<char>>, probes: Seq<Ending>, n: int) -> Seq<
    Seq<char>,
>
    decreases n,
{
    if n <= 0 {
        Seq::<Seq<char>>::empty()
    } else {
        let before = reachable_upto(candidates, probes, n - 1);
        if probes[n - 1].success {
            before.push(candidates[n - 1])
        } else {
            before
        }
    }
}

/// The candidates whose probe failed among the first `n`, in order, each
/// with the connection error that tells what the probe wrote.
pub open spec fn unreachable_upto(candidates: Seq<Seq<char>>, probes: Seq<Ending>, n: int) -> Seq<
    (Seq<char>, SyncFault),
>
    decreases n,
{
    if n <= 0 {
        Seq::<(Seq<char>, SyncFault)>::empty()
    } else {
        let before = unreachable_upto(candidates, probes, n - 1);
        if probes[n - 1].success {
            before
        } else {
            before.push((candidates[n - 1], SyncFault::Connection(probes[n - 1].stderr)))
        }
    }
}

/// The mathematical form of a list of outcomes.
pub open spec fn endings(v: Seq<Outcome>) -> Seq<Ending> {
    Seq::new(v.len(), |i: int| v[i]@)
}

/// The mathematical form of a list of failures.
pub open spec fn failures(v: Seq<(String, SyncError)>) -> Seq<(Seq<char>, SyncFault)> {
    Seq::new(v.len(), |i: int| (v[i].0@, v[i].1@))
}

/// The candidates of a batch parted by the outcome of their probes.
pub struct Partition {
    /// The candidates whose probe succeeded.
    pub reachable: Vec<String>,
    /// The candidates whose probe failed, each with the reason.
    pub unreachable: Vec<(String, SyncError)>,
}

/// Parts the candidates of a batch by the outcome of their connection
/// probes, one probe for each candidate: only the reachable ones go on to
/// be cloned, and each of the others is listed with its error.
pub fn split_reachable(candidates: &Vec<String>, probes: &Vec<Outcome>) -> (r: Partition)
    requires
        candidates@.len() == probes@.len(),
    ensures
        string_texts(r.reachable@) == reachable_upto(
            string_texts(candidates@),
            endings(probes@),
            candidates@.len() as int,
        ),
        failures(r.unreachable@) == unreachable_upto(
            string_texts(candidates@),
            endings(probes@),
            candidates@.len() as int,
        ),
        r.reachable@.len() + r.unreachable@.len() == candidates@.len(),
{
    let mut parts = Partition { reachable: Vec::new(), unreachable: Vec::new() };
    let ghost names = string_texts(candidates@);
    let ghost ends = endings(probes@);
    let mut i: usize = 0;
    while i < candidates.len()
        invariant
            i <= candidates.len(),
            candidates@.len() == probes@.len(),
            names == string_texts(candidates@),
            ends == endings(probes@),
            string_texts(parts.reachable@) == reachable_upto(names, ends, i as int),
            failures(parts.unreachable@) == unreachable_upto(names, ends, i as int),
            parts.reachable@.len() + parts.unreachable@.len() == i,
        decreases candidates.len() - i,
    {
        assert(names[i as int] == candidates@[i as int]@);
        assert(ends[i as int] == probes@[i as int]@);
        if probes[i].success {
            let ghost before = string_texts(parts.reachable@);
            let item = candidates[i].clone();
            parts.reachable.push(item);
            assert(string_texts(parts.reachable@) == before.push(item@));
        } else {
            let ghost before = failures(parts.unreachable@);
            let item = (candidates[i].clone(), SyncError::Connection(probes[i].stderr.clone()));
            parts.unreachable.push(item);
            assert(failures(parts.unreachable@) == before.push((item.0@, item.1@)));
        }
        i = i + 1;
    }
    parts
}

} // verus!
