//! An insertion-ordered table keyed by text, in which no key occurs twice.

use vstd::prelude::*;

verus! {

/// What a table stands for: its entries in the order in which their keys first came, each
/// a key with the value filed under it.
pub type Entries<T> = Seq<(Seq<char>, T)>;

/// Whether some entry of `s` is filed under `key`.
pub open spec fn has_key<T>(s: Entries<T>, key: Seq<char>) -> bool {
    exists|i: int| 0 <= i < s.len() && (#[trigger] s[i]).0 == key
}

/// A position at which `key` is filed in `s`; meaningful when `has_key(s, key)`.
pub open spec fn position<T>(s: Entries<T>, key: Seq<char>) -> int {
    choose|i: int| 0 <= i < s.len() && (#[trigger] s[i]).0 == key
}

/// No two entries of `s` share a key.
pub open spec fn distinct_keys<T>(s: Entries<T>) -> bool {
    forall|i: int, j: int|
        0 <= i < j < s.len() ==> (#[trigger] s[i]).0 != (#[trigger] s[j]).0
}

/// The value filed under `key`, if any.
pub open spec fn lookup<T>(s: Entries<T>, key: Seq<char>) -> Option<T> {
    if has_key(s, key) {
        Some(s[position(s, key)].1)
    } else {
        None
    }
}

/// `s` with `value` filed under `key`: in place of the entry that had the key,
/// or behind all others when no entry had it.
pub open spec fn upsert<T>(s: Entries<T>, key: Seq<char>, value: T) -> Entries<T> {
    if has_key(s, key) {
        s.update(position(s, key), (key, value))
    } else {
        s.push((key, value))
    }
}

/// `s` with the value under `key` exchanged for `value`; `s` itself when the key is absent.
pub open spec fn replace<T>(s: Entries<T>, key: Seq<char>, value: T) -> Entries<T> {
    if has_key(s, key) {
        s.update(position(s, key), (key, value))
    } else {
        s
    }
}

/// `s` without the entry under `key`; `s` itself when the key is absent.
pub open spec fn without<T>(s: Entries<T>, key: Seq<char>) -> Entries<T> {
    if has_key(s, key) {
        s.remove(position(s, key))
    } else {
        s
    }
}

/// The values of `s`, in the order of its entries.
pub open spec fn values<T>(s: Entries<T>) -> Seq<T> {
    s.map_values(|e: (Seq<char>, T)| e.1)
}

/// `s` after each entry of `more` was filed in it, the first one first.
pub open spec fn upsert_all<T>(s: Entries<T>, more: Entries<T>) -> Entries<T>
    decreases more.len(),
{
    if more.len() == 0 {
        s
    } else {
        upsert(upsert_all(s, more.drop_last()), more.last().0, more.last().1)
    }
}

/// With distinct keys, a key is filed at the one position that holds it.
pub proof fn lemma_position<T>(s: Entries<T>, i: int)
    requires
        distinct_keys(s),
        0 <= i < s.len(),
    ensures
        has_key(s, s[i].0),
        position(s, s[i].0) == i,
        lookup(s, s[i].0) == Some(s[i].1),
{
    // Some place holds the key, `i` for one; with distinct keys there is no second.
    assert(s[position(s, s[i].0)].0 == s[i].0);
}

/// Filing a value under a key keeps the keys distinct, makes the key hold the value,
/// adds an entry only for a key that was not there, and leaves every other key with what
/// it held.
pub proof fn lemma_upsert<T>(s: Entries<T>, key: Seq<char>, value: T)
    requires
        distinct_keys(s),
    ensures
        distinct_keys(upsert(s, key, value)),
        lookup(upsert(s, key, value), key) == Some(value),
        upsert(s, key, value).len() == if has_key(s, key) {
            s.len()
        } else {
            s.len() + 1
        },
        forall|other: Seq<char>|
            other != key ==> #[trigger] lookup(upsert(s, key, value), other) == lookup(s, other),
        forall|other: Seq<char>|
            other != key ==> #[trigger] has_key(upsert(s, key, value), other) == has_key(s, other),
{
    let r = upsert(s, key, value);
    let at = if has_key(s, key) {
        position(s, key)
    } else {
        s.len() as int
    };
    lemma_position(r, at);
    assert forall|other: Seq<char>| other != key implies #[trigger] lookup(r, other) == lookup(
        s,
        other,
    ) by {
        if has_key(s, other) {
            // The entry under `other` stays where it was.
            lemma_position(r, position(s, other));
        } else if has_key(r, other) {
            // An entry under `other` would have been there before.
            assert(s[position(r, other)].0 == other);
        }
    }
    assert forall|other: Seq<char>| other != key implies #[trigger] has_key(r, other) == has_key(
        s,
        other,
    ) by {
        assert(lookup(r, other) == lookup(s, other));
    }
}

/// Exchanging the value under a key keeps the keys distinct and the number of entries,
/// makes a key that is there hold the new value, changes nothing for a key that is not
/// there, and leaves every other key with what it held.
pub proof fn lemma_replace<T>(s: Entries<T>, key: Seq<char>, value: T)
    requires
        distinct_keys(s),
    ensures
        distinct_keys(replace(s, key, value)),
        replace(s, key, value).len() == s.len(),
        has_key(s, key) ==> lookup(replace(s, key, value), key) == Some(value),
        !has_key(s, key) ==> replace(s, key, value) == s,
        forall|other: Seq<char>|
            other != key ==> #[trigger] lookup(replace(s, key, value), other) == lookup(s, other),
        forall|other: Seq<char>|
            other != key ==> #[trigger] has_key(replace(s, key, value), other) == has_key(s, other),
{
    if has_key(s, key) {
        lemma_upsert(s, key, value);
    }
}

/// Taking out a key keeps the keys distinct, leaves the key absent, drops an entry only
/// for a key that was there, and leaves every other key with what it held.
pub proof fn lemma_without<T>(s: Entries<T>, key: Seq<char>)
    requires
        distinct_keys(s),
    ensures
        distinct_keys(without(s, key)),
        !has_key(without(s, key), key),
        without(s, key).len() == if has_key(s, key) {
            s.len() - 1
        } else {
            s.len() as int
        },
        forall|other: Seq<char>|
            other != key ==> #[trigger] lookup(without(s, key), other) == lookup(s, other),
        forall|other: Seq<char>|
            other != key ==> #[trigger] has_key(without(s, key), other) == has_key(s, other),
{
    let r = without(s, key);
    if has_key(s, key) {
        let at = position(s, key);
        // Where an entry of `r` stood in `s`, and where an entry of `s` but the one taken
        // out stands in `r`.
        let origin = |j: int|
            if j < at {
                j
            } else {
                j + 1
            };
        let target = |i: int|
            if i < at {
                i
            } else {
                i - 1
            };
        assert forall|j: int| 0 <= j < r.len() implies #[trigger] r[j] == s[origin(j)] by {}
        assert forall|other: Seq<char>| other != key implies #[trigger] lookup(r, other)
            == lookup(s, other) by {
            if has_key(s, other) {
                lemma_position(r, target(position(s, other)));
            } else if has_key(r, other) {
                assert(s[origin(position(r, other))].0 == other);
            }
        }
        if has_key(r, key) {
            assert(s[origin(position(r, key))].0 == key);
        }
    }
    assert forall|other: Seq<char>| other != key implies #[trigger] has_key(r, other) == has_key(
        s,
        other,
    ) by {
        assert(lookup(r, other) == lookup(s, other));
    }
}

/// Filing entries with distinct keys one after the other keeps the keys distinct, makes
/// each of their keys hold its own value, whatever the order they came in, and leaves every
/// key that is not among theirs with what it held.
pub proof fn lemma_upsert_all<T>(s: Entries<T>, more: Entries<T>)
    requires
        distinct_keys(s),
        distinct_keys(more),
    ensures
        distinct_keys(upsert_all(s, more)),
        forall|i: int|
            0 <= i < more.len() ==> lookup(upsert_all(s, more), (#[trigger] more[i]).0) == Some(
                more[i].1,
            ),
        forall|key: Seq<char>|
            !has_key(more, key) ==> #[trigger] lookup(upsert_all(s, more), key) == lookup(s, key),
    decreases more.len(),
{
    if more.len() > 0 {
        let init = more.drop_last();
        let last = more.last();
        let before = upsert_all(s, init);
        let after = upsert_all(s, more);
        assert(distinct_keys(init)) by {
            assert forall|i: int, j: int| 0 <= i < j < init.len() implies (#[trigger] init[i]).0
                != (#[trigger] init[j]).0 by {
                assert(init[i] == more[i] && init[j] == more[j]);
            }
        }
        lemma_upsert_all(s, init);
        lemma_upsert(before, last.0, last.1);
        assert forall|i: int| 0 <= i < more.len() implies lookup(after, (#[trigger] more[i]).0)
            == Some(more[i].1) by {
            if i < init.len() {
                // An earlier entry has another key than the last, so the last filing
                // leaves it alone.
                assert(init[i] == more[i]);
                assert(more[i].0 != last.0);
            }
        }
        assert forall|key: Seq<char>| !has_key(more, key) implies #[trigger] lookup(after, key)
            == lookup(s, key) by {
            assert(last.0 != key);
            if has_key(init, key) {
                assert(more[position(init, key)].0 == key);
            }
        }
    }
}

/// A map from text keys to values that remembers the order in which its keys first came.
/// No key occurs twice in it.
pub struct Table<V: View> {
    entries: Vec<(String, V)>,
}

impl<V: View> View for Table<V> {
    type V = Entries<V::V>;

    closed spec fn view(&self) -> Entries<V::V> {
        model(self.entries@)
    }
}

/// What a list of stored entries stands for: each key and each value by its view.
spec fn model<V: View>(entries: Seq<(String, V)>) -> Entries<V::V> {
    entries.map_values(|e: (String, V)| (e.0@, e.1@))
}

impl<V: View> Table<V> {
    #[verifier::type_invariant]
    spec fn keys_are_distinct(self) -> bool {
        distinct_keys(self@)
    }

    /// An empty table.
    pub fn new() -> (table: Self)
        ensures
            table@ == Seq::<(Seq<char>, V::V)>::empty(),
            distinct_keys(table@),
    {
        Table { entries: Vec::new() }
    }

    /// The number of entries.
    pub fn len(&self) -> (n: usize)
        ensures
            n == self@.len(),
            distinct_keys(self@),
    {
        proof {
            use_type_invariant(self);
        }
        self.entries.len()
    }

    /// Whether the table has no entry.
    pub fn is_empty(&self) -> (b: bool)
        ensures
            b == (self@.len() == 0),
    {
        self.entries.len() == 0
    }

    /// The key of the entry at position `i`.
    pub fn key_at(&self, i: usize) -> (key: &String)
        requires
            i < self@.len(),
        ensures
            key@ == self@[i as int].0,
    {
        &self.entries[i].0
    }

    /// The value of the entry at position `i`.
    pub fn value_at(&self, i: usize) -> (value: &V)
        requires
            i < self@.len(),
        ensures
            value@ == self@[i as int].1,
    {
        &self.entries[i].1
    }

    /// The position of `key`, if it is present.
    fn find(&self, key: &String) -> (found: Option<usize>)
        ensures
            match found {
                Some(i) => i < self@.len() && self@[i as int].0 == key@,
                None => !has_key(self@, key@),
            },
    {
        let mut i: usize = 0;
        while i < self.entries.len()
            invariant
                i <= self.entries.len(),
                forall|j: int| 0 <= j < i ==> (#[trigger] self@[j]).0 != key@,
            decreases self.entries.len() - i,
        {
            if self.entries[i].0 == *key {
                return Some(i);
            }
            i += 1;
        }
        None
    }

    /// Whether `key` is present.
    pub fn contains_key(&self, key: &String) -> (b: bool)
        ensures
            b == has_key(self@, key@),
    {
        self.find(key).is_some()
    }

    /// The value filed under `key`, if the key is present.
    pub fn get(&self, key: &String) -> (found: Option<&V>)
        ensures
            match found {
                Some(value) => lookup(self@, key@) == Some(value@),
                None => lookup(self@, key@) is None,
            },
    {
        proof {
            use_type_invariant(self);
        }
        match self.find(key) {
            Some(i) => Some(&self.entries[i].1),
            None => None,
        }
    }

    /// Files `value` under `key`, in place of the value the key had, or as the last entry.
    pub fn insert(&mut self, key: String, value: V)
        ensures
            final(self)@ == upsert(old(self)@, key@, value@),
            distinct_keys(old(self)@),
            distinct_keys(final(self)@),
    {
        proof {
            use_type_invariant(&*self);
        }
        let found = self.find(&key);
        // The entries leave the table while they change and come back as a whole.
        let mut entries: Vec<(String, V)> = Vec::new();
        core::mem::swap(&mut self.entries, &mut entries);
        match found {
            Some(i) => {
                entries[i] = (key, value);
            },
            None => {
                entries.push((key, value));
            },
        }
        assert(model(entries@) =~= upsert(old(self)@, key@, value@));
        self.entries = entries;
    }

    /// Exchanges the value under `key` for `value` and says whether the key was present;
    /// an absent key leaves the table as it was.
    pub fn replace(&mut self, key: &String, value: V) -> (found: bool)
        ensures
            found == has_key(old(self)@, key@),
            final(self)@ == replace(old(self)@, key@, value@),
            distinct_keys(old(self)@),
            distinct_keys(final(self)@),
    {
        proof {
            use_type_invariant(&*self);
        }
        match self.find(key) {
            Some(i) => {
                let mut entries: Vec<(String, V)> = Vec::new();
                core::mem::swap(&mut self.entries, &mut entries);
                entries[i].1 = value;
                assert(model(entries@) =~= replace(old(self)@, key@, value@));
                self.entries = entries;
                true
            },
            None => false,
        }
    }

    /// Takes out the entry under `key` and hands back its value; an absent key leaves the
    /// table as it was.
    pub fn remove(&mut self, key: &String) -> (removed: Option<V>)
        ensures
            match removed {
                Some(value) => lookup(old(self)@, key@) == Some(value@),
                None => lookup(old(self)@, key@) is None,
            },
            final(self)@ == without(old(self)@, key@),
            distinct_keys(old(self)@),
            distinct_keys(final(self)@),
    {
        proof {
            use_type_invariant(&*self);
        }
        match self.find(key) {
            Some(i) => {
                let mut entries: Vec<(String, V)> = Vec::new();
                core::mem::swap(&mut self.entries, &mut entries);
                let (_, value) = entries.remove(i);
                assert(model(entries@) =~= without(old(self)@, key@));
                self.entries = entries;
                Some(value)
            },
            None => None,
        }
    }
}

} // verus!
