//! A finite map from text to values.
use vstd::prelude::*;

verus! {

/// Whether some entry has the key `key`.
pub open spec fn has_key<V>(entries: Seq<(String, V)>, key: Seq<char>) -> bool {
    exists|i: int| 0 <= i < entries.len() && (#[trigger] entries[i]).0@ == key
}

/// The place of an entry with the key `key`.
pub open spec fn place_of<V>(entries: Seq<(String, V)>, key: Seq<char>) -> int {
    choose|i: int| 0 <= i < entries.len() && (#[trigger] entries[i]).0@ == key
}

/// No two entries share a key.
pub open spec fn distinct_keys<V>(entries: Seq<(String, V)>) -> bool {
    forall|i: int, j: int|
        0 <= i < j < entries.len() ==> (#[trigger] entries[i]).0@ != (#[trigger] entries[j]).0@
}

/// The map that a list of entries stands for.
pub open spec fn entries_map<V>(entries: Seq<(String, V)>) -> Map<Seq<char>, V> {
    Map::new(
        |key: Seq<char>| has_key(entries, key),
        |key: Seq<char>| entries[place_of(entries, key)].1,
    )
}

proof fn lemma_entry<V>(entries: Seq<(String, V)>, i: int)
    requires
        distinct_keys(entries),
        0 <= i < entries.len(),
    ensures
        entries_map(entries).contains_key(entries[i].0@),
        entries_map(entries)[entries[i].0@] == entries[i].1,
{
    let key = entries[i].0@;
    let j = place_of(entries, key);
    assert(has_key(entries, key));
    if j < i {
        assert(entries[j].0@ != entries[i].0@);
    } else if i < j {
        assert(entries[i].0@ != entries[j].0@);
    }
}

proof fn lemma_entries<V>(entries: Seq<(String, V)>)
    requires
        distinct_keys(entries),
    ensures
        forall|i: int|
            0 <= i < entries.len() ==> {
                &&& entries_map(entries).contains_key((#[trigger] entries[i]).0@)
                &&& entries_map(entries)[entries[i].0@] == entries[i].1
            },
{
    assert forall|i: int| 0 <= i < entries.len() implies {
        &&& entries_map(entries).contains_key((#[trigger] entries[i]).0@)
        &&& entries_map(entries)[entries[i].0@] == entries[i].1
    } by {
        lemma_entry(entries, i);
    }
}

proof fn lemma_push<V>(entries: Seq<(String, V)>, entry: (String, V))
    requires
        distinct_keys(entries),
        !has_key(entries, entry.0@),
    ensures
        distinct_keys(entries.push(entry)),
        entries_map(entries.push(entry)) == entries_map(entries).insert(entry.0@, entry.1),
{
    let pushed = entries.push(entry);
    assert(distinct_keys(pushed));
    lemma_entries(entries);
    lemma_entries(pushed);
    let left = entries_map(pushed);
    let right = entries_map(entries).insert(entry.0@, entry.1);
    assert forall|key: Seq<char>| left.contains_key(key) == right.contains_key(key) by {
        if has_key(entries, key) {
            let i = place_of(entries, key);
            assert(pushed[i].0@ == key);
        }
        if key == entry.0@ {
            assert(pushed[entries.len() as int].0@ == key);
        }
    }
    assert forall|key: Seq<char>| left.contains_key(key) implies left[key] == right[key] by {
        let i = place_of(pushed, key);
        assert(pushed[i].0@ == key);
        if i < entries.len() {
            assert(entries[i] == pushed[i]);
        }
    }
    assert(left =~= right);
}

proof fn lemma_size<V>(entries: Seq<(String, V)>)
    requires
        distinct_keys(entries),
    ensures
        entries_map(entries).dom().finite(),
        entries_map(entries).len() == entries.len(),
    decreases entries.len(),
{
    if entries.len() == 0 {
        assert(entries_map(entries) =~= Map::empty());
    } else {
        let init = entries.drop_last();
        assert(distinct_keys(init)) by {
            assert forall|i: int, j: int| 0 <= i < j < init.len() implies (#[trigger] init[i]).0@
                != (#[trigger] init[j]).0@ by {
                assert(entries[i].0@ != entries[j].0@);
            }
        }
        assert(!has_key(init, entries.last().0@)) by {
            if has_key(init, entries.last().0@) {
                let i = place_of(init, entries.last().0@);
                assert(entries[i].0@ != entries[entries.len() - 1].0@);
            }
        }
        lemma_size(init);
        lemma_push(init, entries.last());
        assert(init.push(entries.last()) == entries);
    }
}

proof fn lemma_remove<V>(entries: Seq<(String, V)>, i: int)
    requires
        distinct_keys(entries),
        0 <= i < entries.len(),
    ensures
        distinct_keys(entries.remove(i)),
        entries_map(entries.remove(i)) == entries_map(entries).remove(entries[i].0@),
{
    let kept = entries.remove(i);
    assert forall|a: int, b: int| 0 <= a < b < kept.len() implies (#[trigger] kept[a]).0@ != (
    #[trigger] kept[b]).0@ by {
        let a0 = if a < i {
            a
        } else {
            a + 1
        };
        let b0 = if b < i {
            b
        } else {
            b + 1
        };
        assert(entries[a0].0@ != entries[b0].0@);
    }
    lemma_entries(entries);
    lemma_entries(kept);
    let left = entries_map(kept);
    let right = entries_map(entries).remove(entries[i].0@);
    assert forall|key: Seq<char>| left.contains_key(key) == right.contains_key(key) by {
        if has_key(entries, key) && key != entries[i].0@ {
            let j = place_of(entries, key);
            if j < i {
                assert(kept[j].0@ == key);
            } else {
                assert(kept[j - 1].0@ == key);
            }
        }
        if has_key(kept, key) {
            let j = place_of(kept, key);
            let j0 = if j < i {
                j
            } else {
                j + 1
            };
            assert(entries[j0] == kept[j]);
            if j0 < i {
                assert(entries[j0].0@ != entries[i].0@);
            } else {
                assert(entries[i].0@ != entries[j0].0@);
            }
        }
    }
    assert forall|key: Seq<char>| left.contains_key(key) implies left[key] == right[key] by {
        let j = place_of(kept, key);
        assert(kept[j].0@ == key);
        let j0 = if j < i {
            j
        } else {
            j + 1
        };
        assert(entries[j0] == kept[j]);
    }
    assert(left =~= right);
}

proof fn lemma_replace<V>(entries: Seq<(String, V)>, i: int, entry: (String, V))
    requires
        distinct_keys(entries),
        0 <= i < entries.len(),
        entry.0@ == entries[i].0@,
    ensures
        distinct_keys(entries.update(i, entry)),
        entries_map(entries.update(i, entry)) == entries_map(entries).insert(entry.0@, entry.1),
{
    let updated = entries.update(i, entry);
    assert forall|a: int, b: int| 0 <= a < b < updated.len() implies (#[trigger] updated[a]).0@ != (
    #[trigger] updated[b]).0@ by {
        assert(entries[a].0@ != entries[b].0@);
    }
    lemma_entries(entries);
    lemma_entries(updated);
    let left = entries_map(updated);
    let right = entries_map(entries).insert(entry.0@, entry.1);
    assert forall|key: Seq<char>| left.contains_key(key) == right.contains_key(key) by {
        if has_key(entries, key) {
            let j = place_of(entries, key);
            assert(updated[j].0@ == key);
        }
        if has_key(updated, key) {
            let j = place_of(updated, key);
            assert(entries[j].0@ == key);
        }
        assert(updated[i].0@ == entry.0@);
    }
    assert forall|key: Seq<char>| left.contains_key(key) implies left[key] == right[key] by {
        let j = place_of(updated, key);
        assert(updated[j].0@ == key);
        assert(entries[j].0@ == key);
    }
    assert(left =~= right);
}

/// A map from text to values, held as a list of entries in which no key occurs twice.
#[verifier::reject_recursive_types(V)]
pub struct Table<V> {
    entries: Vec<(String, V)>,
}

impl<V> View for Table<V> {
    type V = Map<Seq<char>, V>;

    closed spec fn view(&self) -> Map<Seq<char>, V> {
        entries_map(self.entries@)
    }
}

impl<V> Table<V> {
    /// No key occurs twice.
    pub closed spec fn wf(&self) -> bool {
        distinct_keys(self.entries@)
    }

    /// A table has finitely many keys.
    pub(crate) proof fn keys_are_finite(&self)
        requires
            self.wf(),
        ensures
            self@.dom().finite(),
    {
        lemma_size(self.entries@);
    }

    /// An empty table.
    pub fn new() -> (table: Self)
        ensures
            table.wf(),
            table@ == Map::<Seq<char>, V>::empty(),
    {
        let table = Table { entries: Vec::new() };
        assert(table@ =~= Map::<Seq<char>, V>::empty());
        table
    }

    /// The number of keys.
    pub fn len(&self) -> (n: usize)
        requires
            self.wf(),
        ensures
            self@.dom().finite(),
            n == self@.len(),
    {
        proof {
            lemma_size(self.entries@);
        }
        self.entries.len()
    }

    fn find(&self, key: &str) -> (place: Option<usize>)
        requires
            self.wf(),
        ensures
            match place {
                Some(i) => i < self.entries@.len() && self.entries@[i as int].0@ == key@
                    && self@.contains_key(key@) && self@[key@] == self.entries@[i as int].1,
                None => !self@.contains_key(key@),
            },
    {
        let wanted: String = key.to_owned();
        let mut i: usize = 0;
        while i < self.entries.len()
            invariant
                self.wf(),
                wanted@ == key@,
                i <= self.entries.len(),
                forall|j: int| 0 <= j < i ==> (#[trigger] self.entries@[j]).0@ != key@,
            decreases self.entries.len() - i,
        {
            if self.entries[i].0 == wanted {
                proof {
                    lemma_entry(self.entries@, i as int);
                }
                return Some(i);
            }
            i = i + 1;
        }
        None
    }

    /// Whether the table has the key.
    pub fn contains_key(&self, key: &str) -> (has: bool)
        requires
            self.wf(),
        ensures
            has == self@.contains_key(key@),
    {
        self.find(key).is_some()
    }

    /// The value under a key.
    pub fn get(&self, key: &str) -> (value: Option<&V>)
        requires
            self.wf(),
        ensures
            match value {
                Some(v) => self@.contains_key(key@) && *v == self@[key@],
                None => !self@.contains_key(key@),
            },
    {
        match self.find(key) {
            Some(i) => Some(&self.entries[i].1),
            None => None,
        }
    }

    /// Puts a value under a key, in place of the one that was there.
    pub fn insert(&mut self, key: String, value: V)
        requires
            old(self).wf(),
        ensures
            final(self).wf(),
            final(self)@ == old(self)@.insert(key@, value),
    {
        match self.find(key.as_str()) {
            Some(i) => {
                proof {
                    lemma_replace(self.entries@, i as int, (key, value));
                }
                self.entries.set(i, (key, value));
            },
            None => {
                proof {
                    lemma_push(self.entries@, (key, value));
                }
                self.entries.push((key, value));
            },
        }
    }

    /// Takes a key out of the table, with its value.
    pub fn remove(&mut self, key: &str) -> (value: Option<V>)
        requires
            old(self).wf(),
        ensures
            final(self).wf(),
            final(self)@ == old(self)@.remove(key@),
            match value {
                Some(v) => old(self)@.contains_key(key@) && v == old(self)@[key@],
                None => !old(self)@.contains_key(key@),
            },
    {
        match self.find(key) {
            Some(i) => {
                proof {
                    lemma_remove(self.entries@, i as int);
                }
                let entry = self.entries.remove(i);
                Some(entry.1)
            },
            None => {
                assert(self@ =~= self@.remove(key@));
                None
            },
        }
    }

    /// Keeps the entries whose value passes the test, and drops the others.
    pub(crate) fn retain<F: Fn(&V) -> bool>(
        &mut self,
        keep: F,
        Ghost(pred): Ghost<spec_fn(V) -> bool>,
    )
        requires
            old(self).wf(),
            forall|v: &V| #[trigger] call_requires(keep, (v,)),
            forall|v: &V, b: bool| #[trigger] call_ensures(keep, (v,), b) ==> b == pred(*v),
        ensures
            final(self).wf(),
            final(self)@ == old(self)@.restrict(
                Set::new(|k: Seq<char>| old(self)@.contains_key(k) && pred(old(self)@[k])),
            ),
    {
        let ghost whole = old(self)@;
        let mut i: usize = 0;
        while i < self.entries.len()
            invariant
                self.wf(),
                i <= self.entries.len(),
                forall|v: &V| #[trigger] call_requires(keep, (v,)),
                forall|v: &V, b: bool| #[trigger] call_ensures(keep, (v,), b) ==> b == pred(*v),
                forall|j: int| 0 <= j < i ==> pred((#[trigger] self.entries@[j]).1),
                forall|k: Seq<char>| #[trigger]
                    self@.contains_key(k) ==> whole.contains_key(k) && whole[k] == self@[k],
                forall|k: Seq<char>| #[trigger]
                    whole.contains_key(k) && pred(whole[k]) ==> self@.contains_key(k),
            decreases self.entries.len() - i,
        {
            proof {
                lemma_entry(self.entries@, i as int);
            }
            if keep(&self.entries[i].1) {
                i = i + 1;
            } else {
                proof {
                    lemma_remove(self.entries@, i as int);
                }
                let ghost before = self@;
                let ghost key = self.entries@[i as int].0@;
                let _dropped = self.entries.remove(i);
                assert(self@ == before.remove(key));
                assert forall|k: Seq<char>| #[trigger] self@.contains_key(k) implies
                    whole.contains_key(k) && whole[k] == self@[k] by {
                    assert(before.contains_key(k));
                }
            }
        }
        let ghost kept = whole.restrict(
            Set::new(|k: Seq<char>| whole.contains_key(k) && pred(whole[k])),
        );
        assert forall|k: Seq<char>| self@.contains_key(k) implies pred(whole[k]) by {
            let j = place_of(self.entries@, k);
            assert(pred(self.entries@[j].1));
        }
        assert(self@ =~= kept);
    }

    /// Whether some value passes the test.
    pub(crate) fn any<F: Fn(&V) -> bool>(
        &self,
        test: F,
        Ghost(pred): Ghost<spec_fn(V) -> bool>,
    ) -> (found: bool)
        requires
            self.wf(),
            forall|v: &V| #[trigger] call_requires(test, (v,)),
            forall|v: &V, b: bool| #[trigger] call_ensures(test, (v,), b) ==> b == pred(*v),
        ensures
            found == exists|k: Seq<char>| #[trigger] self@.contains_key(k) && pred(self@[k]),
    {
        let mut i: usize = 0;
        while i < self.entries.len()
            invariant
                self.wf(),
                i <= self.entries.len(),
                forall|v: &V| #[trigger] call_requires(test, (v,)),
                forall|v: &V, b: bool| #[trigger] call_ensures(test, (v,), b) ==> b == pred(*v),
                forall|j: int| 0 <= j < i ==> !pred((#[trigger] self.entries@[j]).1),
            decreases self.entries.len() - i,
        {
            proof {
                lemma_entry(self.entries@, i as int);
            }
            if test(&self.entries[i].1) {
                assert(self@.contains_key(self.entries@[i as int].0@));
                return true;
            }
            i = i + 1;
        }
        assert forall|k: Seq<char>| #[trigger] self@.contains_key(k) implies !pred(self@[k]) by {
            let j = place_of(self.entries@, k);
            assert(!pred(self.entries@[j].1));
        }
        false
    }

    /// Gives access to the value under a key, to change it.
    pub(crate) fn get_mut(&mut self, key: &str) -> (value: Option<&mut V>)
        requires
            old(self).wf(),
        ensures
            final(self).wf(),
            match value {
                Some(v) => old(self)@.contains_key(key@) && *v == old(self)@[key@] && final(self)@
                    == old(self)@.insert(key@, *final(v)),
                None => !old(self)@.contains_key(key@) && final(self)@ == old(self)@,
            },
    {
        match self.find(key) {
            Some(i) => {
                proof {
                    assert forall|v: V| #![auto] distinct_keys(
                        self.entries@.update(i as int, (self.entries@[i as int].0, v)),
                    ) && entries_map(
                        self.entries@.update(i as int, (self.entries@[i as int].0, v)),
                    ) == entries_map(self.entries@).insert(key@, v) by {
                        lemma_replace(self.entries@, i as int, (self.entries@[i as int].0, v));
                    }
                }
                Some(&mut self.entries[i].1)
            },
            None => None,
        }
    }
}

} // verus!
