//! A table: values under keys, in the order in which the keys came in.

use crate::text::{same, Text};
use vstd::prelude::*;

verus! {

/// What a table holds under `key`.
pub open spec fn value_of<W>(entries: Seq<(Text, W)>, key: Text) -> Option<W>
    decreases entries.len(),
{
    if entries.len() == 0 {
        None
    } else if entries.last().0 == key {
        Some(entries.last().1)
    } else {
        value_of(entries.drop_last(), key)
    }
}

/// A table with `value` in the place of what it holds under `key`.
pub open spec fn swapped<W>(entries: Seq<(Text, W)>, key: Text, value: W) -> Seq<(Text, W)>
    decreases entries.len(),
{
    if entries.len() == 0 {
        entries
    } else if entries.last().0 == key {
        entries.drop_last().push((key, value))
    } else {
        swapped(entries.drop_last(), key, value).push(entries.last())
    }
}

/// A table with `value` under `key`: in the place of what was there, else as
/// the last entry.
pub open spec fn put<W>(entries: Seq<(Text, W)>, key: Text, value: W) -> Seq<(Text, W)> {
    if value_of(entries, key) is Some {
        swapped(entries, key, value)
    } else {
        entries.push((key, value))
    }
}

/// No key occurs twice.
pub open spec fn unique<W>(entries: Seq<(Text, W)>) -> bool {
    forall|i: int, j: int| 0 <= i < j < entries.len() ==> entries[i].0 != entries[j].0
}

/// `value_of` finds the entry for a key, and nothing where there is none.
pub proof fn lemma_value_of<W>(entries: Seq<(Text, W)>, key: Text)
    ensures
        value_of(entries, key) is None ==> forall|i: int|
            0 <= i < entries.len() ==> (#[trigger] entries[i]).0 != key,
        value_of(entries, key) matches Some(w) ==> exists|i: int|
            0 <= i < entries.len() && #[trigger] entries[i] == (key, w),
    decreases entries.len(),
{
    if entries.len() > 0 && entries.last().0 != key {
        let init = entries.drop_last();
        lemma_value_of(init, key);
        if value_of(init, key) is Some {
            let w = value_of(init, key)->0;
            let i = choose|i: int| 0 <= i < init.len() && #[trigger] init[i] == (key, w);
            assert(entries[i] == (key, w));
        } else {
            assert forall|i: int| 0 <= i < entries.len() implies (#[trigger] entries[i]).0
                != key by {
                if i < init.len() {
                    assert(init[i] == entries[i]);
                }
            }
        }
    } else if entries.len() > 0 {
        assert(entries[entries.len() - 1] == (key, entries.last().1));
    }
}

/// Where no key occurs twice, `value_of` gives the value of the entry.
pub proof fn lemma_value_of_entry<W>(entries: Seq<(Text, W)>, i: int)
    requires
        unique(entries),
        0 <= i < entries.len(),
    ensures
        value_of(entries, entries[i].0) == Some(entries[i].1),
    decreases entries.len(),
{
    if i < entries.len() - 1 {
        let init = entries.drop_last();
        assert(unique(init)) by {
            assert forall|a: int, b: int| 0 <= a < b < init.len() implies init[a].0
                != init[b].0 by {
                assert(init[a] == entries[a] && init[b] == entries[b]);
            }
        }
        assert(init[i] == entries[i]);
        lemma_value_of_entry(init, i);
        assert(entries[i].0 != entries[entries.len() - 1].0);
    }
}

/// The keys of a table stay in their places when a value is exchanged.
pub proof fn lemma_swapped<W>(entries: Seq<(Text, W)>, key: Text, value: W, i: int)
    requires
        0 <= i < entries.len(),
        entries[i].0 == key,
        forall|j: int| i < j < entries.len() ==> (#[trigger] entries[j]).0 != key,
    ensures
        swapped(entries, key, value) == entries.update(i, (key, value)),
        value_of(entries, key) == Some(entries[i].1),
    decreases entries.len(),
{
    let n = entries.len() - 1;
    let init = entries.drop_last();
    if i == n {
        assert(init.push((key, value)) =~= entries.update(i, (key, value)));
    } else {
        assert(entries[n].0 != key);
        assert forall|j: int| i < j < init.len() implies (#[trigger] init[j]).0 != key by {
            assert(init[j] == entries[j]);
        }
        lemma_swapped(init, key, value, i);
        assert(init.update(i, (key, value)).push(entries.last()) =~= entries.update(
            i,
            (key, value),
        ));
    }
}

proof fn lemma_value_of_none<W>(entries: Seq<(Text, W)>, key: Text)
    requires
        forall|i: int| 0 <= i < entries.len() ==> (#[trigger] entries[i]).0 != key,
    ensures
        value_of(entries, key) is None,
    decreases entries.len(),
{
    if entries.len() > 0 {
        let init = entries.drop_last();
        assert forall|i: int| 0 <= i < init.len() implies (#[trigger] init[i]).0 != key by {
            assert(init[i] == entries[i]);
        }
        assert(entries[entries.len() - 1].0 != key);
        lemma_value_of_none(init, key);
    }
}

/// What a list of entries holds under `key`: the last one counts.
pub fn lookup<'a>(table: &'a [(String, String)], key: &str) -> (r: Option<&'a String>)
    ensures
        r.deep_view() == value_of(table.deep_view(), key@),
{
    let ghost all = table.deep_view();
    let mut i: usize = table.len();
    assert(all.take(all.len() as int) =~= all);
    while i > 0
        invariant
            all == table.deep_view(),
            i <= table.len(),
            value_of(all, key@) == value_of(all.take(i as int), key@),
        decreases i,
    {
        assert(all.take(i as int).last() == table[i - 1].deep_view());
        assert(all.take(i as int).drop_last() =~= all.take(i - 1));
        if same(table[i - 1].0.as_str(), key) {
            return Some(&table[i - 1].1);
        }
        i = i - 1;
    }
    None
}

/// The keys of a table.
pub open spec fn keys(table: Seq<(Text, Text)>) -> Seq<Text> {
    table.map_values(|p: (Text, Text)| p.0)
}

/// A table has a value for its keys and for nothing else.
pub proof fn lemma_keys(table: Seq<(Text, Text)>, key: Text)
    ensures
        value_of(table, key) is Some <==> keys(table).contains(key),
    decreases table.len(),
{
    if table.len() > 0 {
        let init = table.drop_last();
        lemma_keys(init, key);
        let n = table.len() - 1;
        assert(keys(table)[n] == table.last().0);
        if keys(init).contains(key) {
            let k = choose|k: int| 0 <= k < init.len() && keys(init)[k] == key;
            assert(keys(table)[k] == key);
        }
        if keys(table).contains(key) && table.last().0 != key {
            let k = choose|k: int| 0 <= k < table.len() && keys(table)[k] == key;
            assert(keys(init)[k] == key);
        }
    }
}

/// Values under keys, in the order in which the keys came in. No key occurs
/// twice.
#[derive(Clone, Debug)]
pub struct Table<V> {
    entries: Vec<(String, V)>,
}

impl<V: DeepView> DeepView for Table<V> {
    type V = Seq<(Text, V::V)>;

    closed spec fn deep_view(&self) -> Seq<(Text, V::V)> {
        self.entries.deep_view()
    }
}

impl<V: DeepView> Table<V> {
    /// No key occurs twice.
    pub open spec fn wf(self) -> bool {
        unique(self.deep_view())
    }

    /// A table without entries.
    pub fn new() -> (r: Self)
        ensures
            r.deep_view() == Seq::<(Text, V::V)>::empty(),
            r.wf(),
    {
        let r = Table { entries: Vec::new() };
        assert(r.deep_view() =~= Seq::<(Text, V::V)>::empty());
        r
    }

    /// How many entries there are.
    pub fn len(&self) -> (r: usize)
        ensures
            r == self.deep_view().len(),
    {
        self.entries.len()
    }

    /// Whether there are no entries.
    pub fn is_empty(&self) -> (r: bool)
        ensures
            r == (self.deep_view().len() == 0),
    {
        self.entries.len() == 0
    }

    /// The key of an entry.
    pub fn key(&self, i: usize) -> (r: &str)
        requires
            i < self.deep_view().len(),
        ensures
            r@ == self.deep_view()[i as int].0,
    {
        assert(self.deep_view()[i as int] == self.entries[i as int].deep_view());
        self.entries[i].0.as_str()
    }

    /// The value of an entry.
    pub fn value(&self, i: usize) -> (r: &V)
        requires
            i < self.deep_view().len(),
        ensures
            r.deep_view() == self.deep_view()[i as int].1,
    {
        assert(self.deep_view()[i as int] == self.entries[i as int].deep_view());
        &self.entries[i].1
    }

    /// The place of the last entry for `key`.
    fn place(&self, key: &str) -> (r: Option<usize>)
        ensures
            match r {
                Some(i) => i < self.deep_view().len() && self.deep_view()[i as int].0 == key@
                    && forall|j: int|
                    i < j < self.deep_view().len() ==> (#[trigger] self.deep_view()[j]).0 != key@,
                None => forall|j: int|
                    0 <= j < self.deep_view().len() ==> (#[trigger] self.deep_view()[j]).0 != key@,
            },
    {
        let mut i: usize = self.entries.len();
        while i > 0
            invariant
                i <= self.entries.len(),
                self.entries.len() == self.deep_view().len(),
                forall|j: int|
                    i <= j < self.deep_view().len() ==> (#[trigger] self.deep_view()[j]).0 != key@,
            decreases i,
        {
            i = i - 1;
            if same(self.key(i), key) {
                return Some(i);
            }
        }
        None
    }

    /// What the table holds under `key`.
    pub fn get(&self, key: &str) -> (r: Option<&V>)
        ensures
            r.deep_view() == value_of(self.deep_view(), key@),
    {
        let ghost all = self.deep_view();
        match self.place(key) {
            Some(i) => {
                proof {
                    lemma_swapped(all, key@, all[i as int].1, i as int);
                }
                Some(self.value(i))
            },
            None => {
                proof {
                    lemma_value_of_none(all, key@);
                }
                None
            },
        }
    }

    /// Whether the table holds anything under `key`.
    pub fn contains_key(&self, key: &str) -> (r: bool)
        ensures
            r == (value_of(self.deep_view(), key@) is Some),
    {
        self.get(key).is_some()
    }

    /// Puts `value` under `key`: in the place of what was there, else as the
    /// last entry.
    pub fn insert(&mut self, key: String, value: V)
        requires
            old(self).wf(),
        ensures
            final(self).deep_view() == put(old(self).deep_view(), key@, value.deep_view()),
            final(self).wf(),
    {
        let ghost all = self.deep_view();
        let ghost w = value.deep_view();
        let place = self.place(key.as_str());
        match place {
            Some(i) => {
                proof {
                    lemma_swapped(all, key@, w, i as int);
                }
                self.entries.set(i, (key, value));
                assert(self.deep_view() =~= all.update(i as int, (key@, w)));
            },
            None => {
                proof {
                    lemma_value_of_none(all, key@);
                }
                self.entries.push((key, value));
                assert(self.deep_view() =~= all.push((key@, w)));
            },
        }
    }
}

// ── Laws ─────────────────────────────────────────────────────────────

/// What was put under a key is found there, and nothing else changes.
pub proof fn law_put_and_find<W>(entries: Seq<(Text, W)>, key: Text, value: W, other: Text)
    ensures
        value_of(put(entries, key, value), key) == Some(value),
        other != key ==> value_of(put(entries, key, value), other) == value_of(entries, other),
{
    if value_of(entries, key) is Some {
        lemma_swapped_find(entries, key, value, other);
    } else {
        assert(entries.push((key, value)).drop_last() =~= entries);
    }
}

proof fn lemma_swapped_find<W>(entries: Seq<(Text, W)>, key: Text, value: W, other: Text)
    requires
        value_of(entries, key) is Some,
    ensures
        value_of(swapped(entries, key, value), key) == Some(value),
        other != key ==> value_of(swapped(entries, key, value), other) == value_of(entries, other),
    decreases entries.len(),
{
    let init = entries.drop_last();
    if entries.last().0 == key {
        assert(init.push((key, value)).drop_last() =~= init);
    } else {
        lemma_swapped_find(init, key, value, other);
        assert(swapped(init, key, value).push(entries.last()).drop_last() =~= swapped(
            init,
            key,
            value,
        ));
    }
}

/// Putting a value into a table keeps its keys from occurring twice.
pub proof fn law_put_keeps_keys_unique<W>(entries: Seq<(Text, W)>, key: Text, value: W)
    requires
        unique(entries),
    ensures
        unique(put(entries, key, value)),
{
    lemma_value_of(entries, key);
    if value_of(entries, key) is Some {
        let w = value_of(entries, key)->0;
        let i = choose|i: int| 0 <= i < entries.len() && #[trigger] entries[i] == (key, w);
        assert forall|j: int| i < j < entries.len() implies (#[trigger] entries[j]).0 != key by {
            assert(entries[i].0 != entries[j].0);
        }
        lemma_swapped(entries, key, value, i);
    }
}

/// Where no key occurs twice, the order of the entries does not matter: of two
/// tables with the same entries each key has the same value.
pub proof fn law_order_of_entries_does_not_matter<W>(
    a: Seq<(Text, W)>,
    b: Seq<(Text, W)>,
    key: Text,
)
    requires
        unique(a),
        unique(b),
        forall|e: (Text, W)| a.contains(e) <==> b.contains(e),
    ensures
        value_of(a, key) == value_of(b, key),
{
    lemma_value_of(a, key);
    lemma_value_of(b, key);
    if value_of(a, key) is Some {
        let w = value_of(a, key)->0;
        let i = choose|i: int| 0 <= i < a.len() && #[trigger] a[i] == (key, w);
        assert(a.contains((key, w)));
        let j = choose|j: int| 0 <= j < b.len() && b[j] == (key, w);
        lemma_value_of_entry(b, j);
    } else if value_of(b, key) is Some {
        let w = value_of(b, key)->0;
        let j = choose|j: int| 0 <= j < b.len() && #[trigger] b[j] == (key, w);
        assert(b.contains((key, w)));
        let i = choose|i: int| 0 <= i < a.len() && a[i] == (key, w);
        assert(a[i].0 == key);
    }
}

} // verus!
