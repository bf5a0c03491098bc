//! A table from names to values that keeps its entries in the order in
//! which their names first came.

use crate::text::{chars_of, same_text};
use vstd::prelude::*;

verus! {

/// Entries of a name and a value each. In a well-formed table no name
/// stands twice.
#[derive(Debug)]
pub struct Table<V> {
    pub entries: Vec<(String, V)>,
}

impl<V> Table<V> {
    /// The name of entry `i`.
    pub open spec fn key_at(&self, i: int) -> Seq<char> {
        self.entries@[i].0@
    }

    /// The value of entry `i`.
    pub open spec fn value_at(&self, i: int) -> V {
        self.entries@[i].1
    }

    /// How many entries the table has.
    pub open spec fn count(&self) -> int {
        self.entries@.len() as int
    }

    /// The names of the entries, in order.
    pub open spec fn keys(&self) -> Seq<Seq<char>> {
        Seq::new(self.entries@.len(), |i: int| self.key_at(i))
    }

    /// No name stands twice.
    pub open spec fn wf(&self) -> bool {
        forall|i: int, j: int| 0 <= i < j < self.count() ==> self.key_at(i) != self.key_at(j)
    }

    /// Whether the table has an entry of the given name.
    pub open spec fn has(&self, key: Seq<char>) -> bool {
        exists|i: int| 0 <= i < self.count() && self.key_at(i) == key
    }

    /// The index of the first entry of the given name; the number of
    /// entries where there is none.
    pub open spec fn slot(&self, key: Seq<char>) -> int {
        Self::slot_below(self.entries@, key, self.count())
    }

    /// The index of the first entry of the given name among the first `n`,
    /// or `n` where there is none.
    pub open spec fn slot_below(entries: Seq<(String, V)>, key: Seq<char>, n: int) -> int
        decreases n,
    {
        if n <= 0 {
            0
        } else {
            let before = Self::slot_below(entries, key, n - 1);
            if before < n - 1 {
                before
            } else if entries[n - 1].0@ == key {
                n - 1
            } else {
                n
            }
        }
    }

    /// `slot_below` is the first index with the name, or `n`.
    pub proof fn lemma_slot_below(entries: Seq<(String, V)>, key: Seq<char>, n: int)
        requires
            0 <= n <= entries.len(),
        ensures
            0 <= Self::slot_below(entries, key, n) <= n,
            forall|j: int| 0 <= j < Self::slot_below(entries, key, n) ==> entries[j].0@ != key,
            Self::slot_below(entries, key, n) < n ==> entries[Self::slot_below(
                entries,
                key,
                n,
            )].0@ == key,
        decreases n,
    {
        if n > 0 {
            Self::lemma_slot_below(entries, key, n - 1);
        }
    }

    /// What `slot` says: it is the first index with the name, and the
    /// table has the name exactly where `slot` is an index.
    pub proof fn lemma_slot(&self, key: Seq<char>)
        ensures
            0 <= self.slot(key) <= self.count(),
            forall|j: int| 0 <= j < self.slot(key) ==> self.key_at(j) != key,
            self.slot(key) < self.count() ==> self.key_at(self.slot(key)) == key,
            self.has(key) <==> self.slot(key) < self.count(),
    {
        Self::lemma_slot_below(self.entries@, key, self.count());
        let k = self.slot(key);
        assert forall|j: int| 0 <= j < k implies self.key_at(j) != key by {
            assert(self.entries@[j].0@ != key);
        }
        if k < self.count() {
            assert(self.key_at(k) == key);
        }
        if self.has(key) {
            let i = choose|i: int| 0 <= i < self.count() && self.key_at(i) == key;
            assert(!(i < k));
        }
    }

    /// The empty table.
    pub fn new() -> (r: Self)
        ensures
            r.count() == 0,
            r.wf(),
    {
        Table { entries: Vec::new() }
    }

    /// Whether no name stands twice. A table that `new` made and that only
    /// `insert`, `push_to` and `push_under` changed is sound.
    pub fn is_sound(&self) -> (r: bool)
        ensures
            r == self.wf(),
    {
        let mut k: usize = 0;
        while k < self.entries.len()
            invariant
                k <= self.entries.len(),
                forall|x: int, y: int| 0 <= x < y < k ==> self.key_at(x) != self.key_at(y),
            decreases self.entries.len() - k,
        {
            let mut j: usize = 0;
            while j < k
                invariant
                    j <= k < self.entries.len(),
                    forall|x: int| 0 <= x < j ==> self.key_at(x) != self.key_at(k as int),
                decreases k - j,
            {
                if crate::text::same_str(self.entries[j].0.as_str(), self.entries[k].0.as_str()) {
                    assert(self.key_at(j as int) == self.key_at(k as int));
                    return false;
                }
                j = j + 1;
            }
            k = k + 1;
        }
        true
    }

    /// How many entries the table has.
    pub fn len(&self) -> (n: usize)
        ensures
            n == self.count(),
    {
        self.entries.len()
    }

    /// The index of the first entry of the given name.
    pub fn position(&self, key: &str) -> (r: Option<usize>)
        ensures
            match r {
                Some(i) => i == self.slot(key@) && i < self.count(),
                None => self.slot(key@) == self.count(),
            },
    {
        let wanted = chars_of(key);
        let mut i: usize = 0;
        proof {
            self.lemma_slot(key@);
        }
        while i < self.entries.len()
            invariant
                i <= self.entries.len(),
                wanted@ == key@,
                forall|j: int| 0 <= j < i ==> self.key_at(j) != key@,
                0 <= self.slot(key@) <= self.count(),
                forall|j: int| 0 <= j < self.slot(key@) ==> self.key_at(j) != key@,
                self.slot(key@) < self.count() ==> self.key_at(self.slot(key@)) == key@,
            decreases self.entries.len() - i,
        {
            if same_text(&chars_of(self.entries[i].0.as_str()), &wanted) {
                assert(self.key_at(i as int) == key@);
                assert(!(i < self.slot(key@)));
                assert(!(self.slot(key@) < i)) by {
                    if self.slot(key@) < i {
                        assert(self.key_at(self.slot(key@)) == key@);
                    }
                }
                return Some(i);
            }
            assert(self.key_at(i as int) != key@);
            i = i + 1;
        }
        None
    }

    /// The value of the first entry of the given name.
    pub fn get(&self, key: &str) -> (r: Option<&V>)
        ensures
            match r {
                Some(v) => self.has(key@) && *v == self.value_at(self.slot(key@)),
                None => !self.has(key@),
            },
    {
        proof {
            self.lemma_slot(key@);
        }
        match self.position(key) {
            Some(i) => Some(&self.entries[i].1),
            None => None,
        }
    }

    /// Gives the name the value: in place of the value it had, or in a new
    /// last entry.
    pub fn insert(&mut self, key: &str, value: V)
        requires
            old(self).wf(),
        ensures
            final(self).wf(),
            final(self).slot(key@) == old(self).slot(key@),
            final(self).value_at(old(self).slot(key@)) == value,
            final(self).key_at(old(self).slot(key@)) == key@,
            final(self).count() == if old(self).has(key@) {
                old(self).count()
            } else {
                old(self).count() + 1
            },
            forall|j: int|
                0 <= j < old(self).count() && j != old(self).slot(key@) ==> final(self).entries@[j] == old(self).entries@[j],
    {
        proof {
            self.lemma_slot(key@);
        }
        match self.position(key) {
            Some(i) => {
                self.entries.set(i, (key.to_owned(), value));
            },
            None => {
                self.entries.push((key.to_owned(), value));
            },
        }
        proof {
            let k = old(self).slot(key@);
            assert(self.key_at(k) == key@);
            assert forall|j: int| 0 <= j < self.count() && j != k implies self.key_at(j)
                != key@ && self.entries@[j] == old(self).entries@[j] by {
                assert(self.entries@[j] == old(self).entries@[j]);
                assert(self.key_at(j) == old(self).key_at(j));
                if j < k {
                    assert(old(self).key_at(j) != key@);
                } else {
                    assert(old(self).key_at(k) == key@);
                    assert(old(self).key_at(k) != old(self).key_at(j));
                }
            }
            assert forall|i: int, j: int| 0 <= i < j < self.count() implies self.key_at(i)
                != self.key_at(j) by {
                if i != k && j != k {
                    assert(self.key_at(i) == old(self).key_at(i));
                    assert(self.key_at(j) == old(self).key_at(j));
                    assert(old(self).key_at(i) != old(self).key_at(j));
                }
            }
            self.lemma_slot(key@);
        }
    }
}

/// The list that a table of lists has for a name: empty where the table
/// has no entry of that name.
pub open spec fn list_of<T>(table: Table<Vec<T>>, key: Seq<char>) -> Seq<T> {
    if table.has(key) {
        table.value_at(table.slot(key))@
    } else {
        Seq::<T>::empty()
    }
}

/// The list that a table of tables of lists has for two names: empty where
/// there is no entry of the first name, or none of the second under it.
pub open spec fn list_under<T>(table: Table<Table<Vec<T>>>, outer: Seq<char>, inner: Seq<char>) -> Seq<
    T,
> {
    if table.has(outer) {
        list_of(table.value_at(table.slot(outer)), inner)
    } else {
        Seq::<T>::empty()
    }
}

/// The names under a name of a table of tables, in order: none where the
/// table has no entry of that name.
pub open spec fn keys_under<T>(table: Table<Table<Vec<T>>>, outer: Seq<char>) -> Seq<Seq<char>> {
    if table.has(outer) {
        table.value_at(table.slot(outer)).keys()
    } else {
        Seq::<Seq<char>>::empty()
    }
}

/// Whether every list of a table of lists has an item.
pub open spec fn all_filled<T>(table: Table<Vec<T>>) -> bool {
    forall|i: int| 0 <= i < table.count() ==> (#[trigger] table.value_at(i))@.len() > 0
}

/// Whether every table under a name has an entry, and every list an item.
pub open spec fn nested_filled<T>(table: Table<Table<Vec<T>>>) -> bool {
    forall|i: int|
        0 <= i < table.count() ==> (#[trigger] table.value_at(i)).count() > 0 && all_filled(
            table.value_at(i),
        )
}

/// A table of tables in which no name stands twice, at either level.
pub open spec fn nested_wf<T>(table: Table<Table<Vec<T>>>) -> bool {
    &&& table.wf()
    &&& forall|i: int| 0 <= i < table.count() ==> (#[trigger] table.value_at(i)).wf()
}

/// Adds the item to the list that the name has, or gives the name a new
/// list with the item alone, in a new last entry.
pub fn push_to<T>(table: &mut Table<Vec<T>>, key: &str, item: T)
    requires
        old(table).wf(),
    ensures
        final(table).wf(),
        list_of(*final(table), key@) == list_of(*old(table), key@).push(item),
        forall|other: Seq<char>|
            other != key@ ==> #[trigger] list_of(*final(table), other) == list_of(
                *old(table),
                other,
            ),
        forall|other: Seq<char>|
            other != key@ ==> (#[trigger] final(table).has(other) <==> old(table).has(other)),
        final(table).has(key@),
        final(table).keys() == if old(table).keys().contains(key@) {
            old(table).keys()
        } else {
            old(table).keys().push(key@)
        },
        all_filled(*old(table)) ==> all_filled(*final(table)),
        final(table).slot(key@) == old(table).slot(key@),
        final(table).key_at(old(table).slot(key@)) == key@,
        final(table).value_at(old(table).slot(key@))@ == if old(table).has(key@) {
            old(table).value_at(old(table).slot(key@))@.push(item)
        } else {
            seq![item]
        },
        final(table).count() == if old(table).has(key@) {
            old(table).count()
        } else {
            old(table).count() + 1
        },
        forall|j: int|
            0 <= j < old(table).count() && j != old(table).slot(key@) ==> final(table).entries@[j] == old(table).entries@[j],
{
    proof {
        table.lemma_slot(key@);
    }
    match table.position(key) {
        Some(i) => {
            let (name, mut list) = table.entries.remove(i);
            list.push(item);
            table.entries.insert(i, (name, list));
        },
        None => {
            let mut list: Vec<T> = Vec::new();
            list.push(item);
            table.entries.push((key.to_owned(), list));
        },
    }
    proof {
        let k = old(table).slot(key@);
        assert(table.key_at(k) == key@);
        assert forall|j: int| 0 <= j < table.count() && j != k implies table.key_at(j) != key@
            && table.entries@[j] == old(table).entries@[j] by {
            assert(table.entries@[j] == old(table).entries@[j]);
            assert(table.key_at(j) == old(table).key_at(j));
            if j < k {
                assert(old(table).key_at(j) != key@);
            } else {
                assert(old(table).key_at(k) == key@);
                assert(old(table).key_at(k) != old(table).key_at(j));
            }
        }
        assert forall|i: int, j: int| 0 <= i < j < table.count() implies table.key_at(i)
            != table.key_at(j) by {
            if i != k && j != k {
                assert(table.key_at(i) == old(table).key_at(i));
                assert(table.key_at(j) == old(table).key_at(j));
                assert(old(table).key_at(i) != old(table).key_at(j));
            }
        }
        table.lemma_slot(key@);
        assert(old(table).keys().contains(key@) <==> old(table).has(key@)) by {
            if old(table).keys().contains(key@) {
                let i = choose|i: int|
                    0 <= i < old(table).keys().len() && old(table).keys()[i] == key@;
                assert(old(table).key_at(i) == key@);
            }
            if old(table).has(key@) {
                let i = choose|i: int| 0 <= i < old(table).count() && old(table).key_at(i) == key@;
                assert(old(table).keys()[i] == key@);
            }
        }
        assert(table.keys() == if old(table).has(key@) {
            old(table).keys()
        } else {
            old(table).keys().push(key@)
        }) by {
            assert forall|j: int| 0 <= j < table.count() implies table.keys()[j] == (if j
                < old(table).count() {
                old(table).keys()[j]
            } else {
                key@
            }) by {
                if j != k {
                    assert(table.key_at(j) == old(table).key_at(j));
                } else if k < old(table).count() {
                    assert(old(table).key_at(k) == key@);
                }
            }
        }
        if all_filled(*old(table)) {
            assert forall|i: int| 0 <= i < table.count() implies (#[trigger] table.value_at(
                i,
            ))@.len() > 0 by {
                if i != k {
                    assert(table.value_at(i) == old(table).value_at(i));
                }
            }
        }
        assert forall|other: Seq<char>| other != key@ implies (#[trigger] table.has(other)
            <==> old(table).has(other)) by {
            table.lemma_slot(other);
            old(table).lemma_slot(other);
            let a = old(table).slot(other);
            let b = table.slot(other);
            if a < old(table).count() {
                assert(a != k);
                assert(table.key_at(a) == old(table).key_at(a));
                assert(!(a < b));
            }
            if b < table.count() {
                assert(b != k);
                assert(table.key_at(b) == old(table).key_at(b));
                assert(!(b < a));
            }
        }
        assert forall|other: Seq<char>| other != key@ implies #[trigger] list_of(*table, other)
            == list_of(*old(table), other) by {
            table.lemma_slot(other);
            old(table).lemma_slot(other);
            let a = old(table).slot(other);
            let b = table.slot(other);
            if a < old(table).count() {
                assert(a != k);
                assert(table.key_at(a) == old(table).key_at(a));
                assert(!(a < b));
            }
            if b < table.count() {
                assert(b != k);
                assert(table.key_at(b) == old(table).key_at(b));
                assert(!(b < a));
            }
        }
    }
}

/// Adds the item to the list that the two names have, making the entries
/// that are missing.
pub fn push_under<T>(table: &mut Table<Table<Vec<T>>>, outer: &str, inner: &str, item: T)
    requires
        nested_wf(*old(table)),
    ensures
        nested_wf(*final(table)),
        list_under(*final(table), outer@, inner@) == list_under(*old(table), outer@, inner@).push(
            item,
        ),
        forall|a: Seq<char>, b: Seq<char>|
            (a != outer@ || b != inner@) ==> #[trigger] list_under(*final(table), a, b)
                == list_under(*old(table), a, b),
        nested_filled(*old(table)) ==> nested_filled(*final(table)),
        final(table).keys() == if old(table).keys().contains(outer@) {
            old(table).keys()
        } else {
            old(table).keys().push(outer@)
        },
        keys_under(*final(table), outer@) == if keys_under(*old(table), outer@).contains(inner@) {
            keys_under(*old(table), outer@)
        } else {
            keys_under(*old(table), outer@).push(inner@)
        },
        forall|a: Seq<char>|
            a != outer@ ==> #[trigger] keys_under(*final(table), a) == keys_under(*old(table), a),
{
    proof {
        table.lemma_slot(outer@);
    }
    let ghost k = table.slot(outer@);
    match table.position(outer) {
        Some(i) => {
            assert(table.value_at(i as int).wf());
            let (name, mut sub) = table.entries.remove(i);
            let ghost sub_before = sub;
            push_to(&mut sub, inner, item);
            table.entries.insert(i, (name, sub));
            proof {
                assert(table.key_at(k) == outer@);
                assert(table.value_at(k) == sub);
                assert(old(table).value_at(k) == sub_before);
            }
        },
        None => {
            let mut sub: Table<Vec<T>> = Table::new();
            let ghost sub_before = sub;
            push_to(&mut sub, inner, item);
            table.entries.push((outer.to_owned(), sub));
            proof {
                assert(table.key_at(k) == outer@);
                assert(table.value_at(k) == sub);
                assert(!sub_before.has(inner@));
                assert forall|b: Seq<char>| list_of(sub_before, b) == Seq::<T>::empty() by {}
            }
        },
    }
    proof {
        assert forall|j: int| 0 <= j < table.count() && j != k implies table.key_at(j) != outer@
            && table.entries@[j] == old(table).entries@[j] by {
            assert(table.entries@[j] == old(table).entries@[j]);
            assert(table.key_at(j) == old(table).key_at(j));
            if j < k {
                assert(old(table).key_at(j) != outer@);
            } else {
                assert(old(table).key_at(k) == outer@);
                assert(old(table).key_at(k) != old(table).key_at(j));
            }
        }
        assert forall|i: int, j: int| 0 <= i < j < table.count() implies table.key_at(i)
            != table.key_at(j) by {
            if i != k && j != k {
                assert(table.key_at(i) == old(table).key_at(i));
                assert(table.key_at(j) == old(table).key_at(j));
                assert(old(table).key_at(i) != old(table).key_at(j));
            }
        }
        assert forall|i: int| 0 <= i < table.count() implies (#[trigger] table.value_at(i)).wf() by {
            if i != k {
                assert(table.value_at(i) == old(table).value_at(i));
            }
        }
        table.lemma_slot(outer@);
        assert(old(table).keys().contains(outer@) <==> old(table).has(outer@)) by {
            if old(table).keys().contains(outer@) {
                let i = choose|i: int|
                    0 <= i < old(table).keys().len() && old(table).keys()[i] == outer@;
                assert(old(table).key_at(i) == outer@);
            }
            if old(table).has(outer@) {
                let i = choose|i: int|
                    0 <= i < old(table).count() && old(table).key_at(i) == outer@;
                assert(old(table).keys()[i] == outer@);
            }
        }
        assert(table.keys() == if old(table).has(outer@) {
            old(table).keys()
        } else {
            old(table).keys().push(outer@)
        }) by {
            assert forall|j: int| 0 <= j < table.count() implies table.keys()[j] == (if j
                < old(table).count() {
                old(table).keys()[j]
            } else {
                outer@
            }) by {
                if j != k {
                    assert(table.key_at(j) == old(table).key_at(j));
                } else if k < old(table).count() {
                    assert(old(table).key_at(k) == outer@);
                }
            }
        }
        assert forall|a: Seq<char>| a != outer@ implies #[trigger] keys_under(*table, a)
            == keys_under(*old(table), a) by {
            table.lemma_slot(a);
            old(table).lemma_slot(a);
            let x = old(table).slot(a);
            let y = table.slot(a);
            if x < old(table).count() {
                assert(x != k);
                assert(table.key_at(x) == old(table).key_at(x));
                assert(!(x < y));
            }
            if y < table.count() {
                assert(y != k);
                assert(table.key_at(y) == old(table).key_at(y));
                assert(!(y < x));
            }
        }
        if nested_filled(*old(table)) {
            assert forall|i: int| 0 <= i < table.count() implies (#[trigger] table.value_at(
                i,
            )).count() > 0 && all_filled(table.value_at(i)) by {
                if i != k {
                    assert(table.value_at(i) == old(table).value_at(i));
                } else if k < old(table).count() {
                    assert(all_filled(old(table).value_at(k)));
                }
            }
        }
        assert forall|a: Seq<char>, b: Seq<char>| (a != outer@ || b != inner@) implies #[trigger] list_under(
            *table,
            a,
            b,
        ) == list_under(*old(table), a, b) by {
            if a != outer@ {
                table.lemma_slot(a);
                old(table).lemma_slot(a);
                let x = old(table).slot(a);
                let y = table.slot(a);
                if x < old(table).count() {
                    assert(x != k);
                    assert(table.key_at(x) == old(table).key_at(x));
                    assert(!(x < y));
                }
                if y < table.count() {
                    assert(y != k);
                    assert(table.key_at(y) == old(table).key_at(y));
                    assert(!(y < x));
                }
            }
        }
    }
}

} // verus!
