//! A map from text keys to values that is walked in the order of its keys.

use vstd::prelude::*;

use crate::text::{before, same};
use crate::text::{lemma_before_total, lemma_before_transitive, text_before};

verus! {

/// Entries keyed by a text, in increasing order of the keys.
#[derive(Debug, Clone)]
pub struct KeyMap<V> {
    pub entries: Vec<(String, V)>,
}

/// The value under the first entry with the given key.
pub open spec fn lookup<V>(entries: Seq<(Seq<char>, V)>, key: Seq<char>) -> Option<V>
    decreases entries.len(),
{
    if entries.len() == 0 {
        None
    } else if entries[0].0 == key {
        Some(entries[0].1)
    } else {
        lookup(entries.drop_first(), key)
    }
}

/// The entries with `value` under `key`: in place of the entry that has the
/// key, or else before the first entry with a later key.
pub open spec fn with_entry<V>(
    entries: Seq<(Seq<char>, V)>,
    key: Seq<char>,
    value: V,
) -> Seq<(Seq<char>, V)>
    decreases entries.len(),
{
    if entries.len() == 0 {
        seq![(key, value)]
    } else if entries[0].0 == key {
        seq![(key, value)] + entries.drop_first()
    } else if text_before(key, entries[0].0) {
        seq![(key, value)] + entries
    } else {
        seq![entries[0]] + with_entry(entries.drop_first(), key, value)
    }
}

/// Whether the keys are strictly increasing: the form in which every map
/// built by `new` and `insert` is.
pub open spec fn in_order<V>(entries: Seq<(Seq<char>, V)>) -> bool {
    forall|i: int, j: int|
        0 <= i < j < entries.len() ==> text_before(#[trigger] entries[i].0, #[trigger] entries[j].0)
}

impl<V> View for KeyMap<V> {
    type V = Seq<(Seq<char>, V)>;

    open spec fn view(&self) -> Seq<(Seq<char>, V)> {
        self.entries@.map_values(|entry: (String, V)| (entry.0@, entry.1))
    }
}

impl<V> KeyMap<V> {
    /// Whether the entries are in the order of their keys, each key once.
    pub open spec fn wf(&self) -> bool {
        in_order(self@)
    }

    /// A map without entries.
    pub fn new() -> (map: Self)
        ensures
            map@ == Seq::<(Seq<char>, V)>::empty(),
            map.wf(),
    {
        let map = KeyMap { entries: Vec::new() };
        assert(map@ == Seq::<(Seq<char>, V)>::empty());
        map
    }

    /// The number of entries.
    pub fn len(&self) -> (n: usize)
        ensures
            n == self@.len(),
    {
        self.entries.len()
    }

    /// Whether there are no entries.
    pub fn is_empty(&self) -> (r: bool)
        ensures
            r == (self@.len() == 0),
    {
        self.entries.len() == 0
    }

    /// The value under `key`, if there is one.
    pub fn get(&self, key: &str) -> (value: Option<&V>)
        ensures
            match value {
                Some(v) => lookup(self@, key@) == Some(*v),
                None => lookup(self@, key@) is None,
            },
    {
        let mut i: usize = 0;
        assert(self@.skip(0) == self@);
        while i < self.entries.len()
            invariant
                i <= self.entries@.len(),
                lookup(self@, key@) == lookup(self@.skip(i as int), key@),
            decreases self.entries@.len() - i,
        {
            assert(self@.skip(i as int)[0] == self@[i as int]);
            if same(self.entries[i].0.as_str(), key) {
                return Some(&self.entries[i].1);
            }
            assert(self@.skip(i as int).drop_first() == self@.skip(i + 1));
            i = i + 1;
        }
        None
    }

    /// Whether there is a value under `key`.
    pub fn contains_key(&self, key: &str) -> (r: bool)
        ensures
            r == (lookup(self@, key@) is Some),
    {
        self.get(key).is_some()
    }

    /// Puts `value` under `key`, in place of the value that is there.
    pub fn insert(&mut self, key: String, value: V)
        ensures
            final(self)@ == with_entry(old(self)@, key@, value),
            old(self).wf() ==> final(self).wf(),
    {
        let ghost before_entries = self@;
        let mut i: usize = 0;
        assert(self@.skip(0) == self@);
        assert(self@.take(0) + with_entry(self@.skip(0), key@, value) == with_entry(
            self@,
            key@,
            value,
        ));
        while i < self.entries.len() && !same(self.entries[i].0.as_str(), key.as_str()) && !before(
            key.as_str(),
            self.entries[i].0.as_str(),
        )
            invariant
                i <= self.entries@.len(),
                self@ == before_entries,
                with_entry(before_entries, key@, value) == before_entries.take(i as int)
                    + with_entry(before_entries.skip(i as int), key@, value),
            decreases self.entries@.len() - i,
        {
            proof {
                let rest = before_entries.skip(i as int);
                assert(rest[0] == before_entries[i as int]);
                assert(rest.drop_first() == before_entries.skip(i + 1));
                assert(before_entries.take(i as int) + (seq![rest[0]] + with_entry(
                    rest.drop_first(),
                    key@,
                    value,
                )) == before_entries.take(i + 1) + with_entry(rest.drop_first(), key@, value));
            }
            i = i + 1;
        }
        let ghost rest = before_entries.skip(i as int);
        proof {
            if i < self.entries@.len() {
                assert(rest[0] == before_entries[i as int]);
            }
        }
        if i < self.entries.len() && same(self.entries[i].0.as_str(), key.as_str()) {
            let _ = self.entries.remove(i);
        }
        let ghost key_text = key@;
        self.entries.insert(i, (key, value));
        assert(self@ == with_entry(before_entries, key_text, value));
        proof {
            if in_order(before_entries) {
                lemma_with_entry_in_order(before_entries, key_text, value);
            }
        }
    }
}

/// Putting an entry in keeps the keys strictly increasing.
pub proof fn lemma_with_entry_in_order<V>(
    entries: Seq<(Seq<char>, V)>,
    key: Seq<char>,
    value: V,
)
    requires
        in_order(entries),
    ensures
        in_order(with_entry(entries, key, value)),
        forall|i: int|
            0 <= i < with_entry(entries, key, value).len() ==> {
                ||| #[trigger] with_entry(entries, key, value)[i].0 == key
                ||| exists|j: int| 0 <= j < entries.len() && with_entry(entries, key, value)[i] == entries[j]
            },
    decreases entries.len(),
{
    if entries.len() == 0 {
    } else if entries[0].0 == key {
    } else if text_before(key, entries[0].0) {
        assert forall|j: int| 0 <= j < entries.len() implies text_before(key, #[trigger] entries[j].0) by {
            if j > 0 {
                lemma_before_transitive(key, entries[0].0, entries[j].0);
            }
        }
    } else {
        let rest = entries.drop_first();
        let put = with_entry(rest, key, value);
        lemma_with_entry_in_order(rest, key, value);
        lemma_before_total(key, entries[0].0);
        assert forall|j: int| 0 <= j < put.len() implies text_before(entries[0].0, #[trigger] put[j].0) by {
            if put[j].0 != key {
                let k = choose|k: int| 0 <= k < rest.len() && put[j] == rest[k];
                assert(rest[k] == entries[k + 1]);
            }
        }
        let all = with_entry(entries, key, value);
        assert(all == seq![entries[0]] + put);
        assert forall|i: int| 0 <= i < all.len() implies {
            ||| #[trigger] all[i].0 == key
            ||| exists|j: int| 0 <= j < entries.len() && all[i] == entries[j]
        } by {
            if i > 0 && put[i - 1].0 != key {
                let k = choose|k: int| 0 <= k < rest.len() && put[i - 1] == rest[k];
                assert(all[i] == entries[k + 1]);
            } else if i == 0 {
                assert(all[0] == entries[0]);
            }
        }
    }
}

/// After an entry was put in, its key leads to its value and every other key
/// to what it led to before.
pub proof fn lemma_lookup_with_entry<V>(
    entries: Seq<(Seq<char>, V)>,
    key: Seq<char>,
    value: V,
    other: Seq<char>,
)
    ensures
        lookup(with_entry(entries, key, value), key) == Some(value),
        other != key ==> lookup(with_entry(entries, key, value), other) == lookup(entries, other),
    decreases entries.len(),
{
    let put = with_entry(entries, key, value);
    if entries.len() == 0 {
        assert(put.drop_first() == entries);
    } else if entries[0].0 == key {
        assert(put.drop_first() == entries.drop_first());
    } else if text_before(key, entries[0].0) {
        assert(put.drop_first() == entries);
    } else {
        lemma_lookup_with_entry(entries.drop_first(), key, value, other);
        assert(put.drop_first() == with_entry(entries.drop_first(), key, value));
    }
}

} // verus!
