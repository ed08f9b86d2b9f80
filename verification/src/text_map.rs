//! A map from strings, kept as a list of entries with distinct keys.
use crate::text::same_text;
use vstd::prelude::*;

verus! {

/// A map from strings to values.
#[derive(Debug)]
pub struct TextMap<V> {
    entries: Vec<(String, V)>,
}

/// No two entries have the same key.
spec fn distinct_keys<V>(entries: Seq<(String, V)>) -> bool {
    forall|i: int, j: int|
        0 <= i < j < entries.len() ==> (#[trigger] entries[i]).0@ != (#[trigger] entries[j]).0@
}

/// The entry at `i` has the key `key`.
spec fn has_key_at<V>(entries: Seq<(String, V)>, key: Seq<char>, i: int) -> bool {
    0 <= i < entries.len() && entries[i].0@ == key
}

/// The map that the entries stand for.
spec fn as_map<V>(entries: Seq<(String, V)>) -> Map<Seq<char>, V> {
    Map::new(
        |key: Seq<char>| exists|i: int| has_key_at(entries, key, i),
        |key: Seq<char>| entries[choose|i: int| has_key_at(entries, key, i)].1,
    )
}

proof fn lemma_entry<V>(entries: Seq<(String, V)>, i: int)
    requires
        distinct_keys(entries),
        0 <= i < entries.len(),
    ensures
        as_map(entries).contains_key(entries[i].0@),
        as_map(entries)[entries[i].0@] == entries[i].1,
{
    assert(has_key_at(entries, entries[i].0@, i));
}

proof fn lemma_push<V>(entries: Seq<(String, V)>, entry: (String, V))
    requires
        distinct_keys(entries),
        forall|i: int| !has_key_at(entries, entry.0@, i),
    ensures
        distinct_keys(entries.push(entry)),
        as_map(entries.push(entry)) == as_map(entries).insert(entry.0@, entry.1),
{
    let longer = entries.push(entry);
    assert forall|i: int, j: int| 0 <= i < j < longer.len() implies (#[trigger] longer[i]).0@ != (
    #[trigger] longer[j]).0@ by {
        if j == entries.len() {
            assert(!has_key_at(entries, entry.0@, i));
        }
    }
    let left = as_map(longer);
    let right = as_map(entries).insert(entry.0@, entry.1);
    assert forall|key: Seq<char>| left.contains_key(key) == right.contains_key(key) by {
        if right.contains_key(key) {
            if key == entry.0@ {
                assert(has_key_at(longer, key, entries.len() as int));
            } else {
                let i = choose|i: int| has_key_at(entries, key, i);
                assert(has_key_at(longer, key, i));
            }
        }
        if left.contains_key(key) {
            let i = choose|i: int| has_key_at(longer, key, i);
            assert(i < entries.len() ==> has_key_at(entries, key, i));
        }
    }
    assert forall|key: Seq<char>| left.contains_key(key) implies left[key] == right[key] by {
        let i = choose|i: int| has_key_at(longer, key, i);
        lemma_entry(longer, i);
        if i < entries.len() {
            lemma_entry(entries, i);
        }
    }
    assert(left =~= right);
}

proof fn lemma_remove<V>(entries: Seq<(String, V)>, at: int)
    requires
        distinct_keys(entries),
        0 <= at < entries.len(),
    ensures
        distinct_keys(entries.remove(at)),
        as_map(entries.remove(at)) == as_map(entries).remove(entries[at].0@),
{
    let shorter = entries.remove(at);
    let left = as_map(shorter);
    let right = as_map(entries).remove(entries[at].0@);
    assert forall|key: Seq<char>| left.contains_key(key) == right.contains_key(key) by {
        if right.contains_key(key) {
            let i = choose|i: int| has_key_at(entries, key, i);
            assert(has_key_at(
                shorter,
                key,
                if i < at {
                    i
                } else {
                    i - 1
                },
            ));
        }
        if left.contains_key(key) {
            let i = choose|i: int| has_key_at(shorter, key, i);
            assert(has_key_at(
                entries,
                key,
                if i < at {
                    i
                } else {
                    i + 1
                },
            ));
        }
    }
    assert forall|key: Seq<char>| left.contains_key(key) implies left[key] == right[key] by {
        let i = choose|i: int| has_key_at(shorter, key, i);
        lemma_entry(shorter, i);
        lemma_entry(
            entries,
            if i < at {
                i
            } else {
                i + 1
            },
        );
    }
    assert(left =~= right);
}

impl<V> View for TextMap<V> {
    type V = Map<Seq<char>, V>;

    closed spec fn view(&self) -> Map<Seq<char>, V> {
        as_map(self.entries@)
    }
}

impl<V> TextMap<V> {
    #[verifier::type_invariant]
    spec fn well_formed(self) -> bool {
        distinct_keys(self.entries@)
    }

    /// The keys, in the order in which the map lists them.
    pub closed spec fn keys(self) -> Seq<Seq<char>> {
        self.entries@.map_values(|e: (String, V)| e.0@)
    }

    /// A map without keys.
    pub fn new() -> (r: Self)
        ensures
            r@ == Map::<Seq<char>, V>::empty(),
    {
        let r = TextMap { entries: Vec::new() };
        assert(r@ == Map::<Seq<char>, V>::empty());
        r
    }

    /// The number of keys. Each key is listed once.
    pub fn len(&self) -> (r: usize)
        ensures
            r == self.keys().len(),
            self.keys().no_duplicates(),
            forall|key: Seq<char>| self@.contains_key(key) <==> self.keys().contains(key),
    {
        proof {
            use_type_invariant(self);
            assert forall|key: Seq<char>| self@.contains_key(key) <==> self.keys().contains(key) by {
                if self@.contains_key(key) {
                    let i = choose|i: int| has_key_at(self.entries@, key, i);
                    assert(self.keys()[i] == key);
                }
                if self.keys().contains(key) {
                    let i = choose|i: int| 0 <= i < self.keys().len() && self.keys()[i] == key;
                    assert(has_key_at(self.entries@, key, i));
                }
            }
        }
        self.entries.len()
    }

    /// Tells whether the map has no key.
    pub fn is_empty(&self) -> (r: bool)
        ensures
            r == (self@ == Map::<Seq<char>, V>::empty()),
    {
        let r = self.entries.len() == 0;
        proof {
            if r {
                assert(self@ =~= Map::<Seq<char>, V>::empty());
            } else {
                assert(has_key_at(self.entries@, self.entries@[0].0@, 0));
                assert(self@.contains_key(self.entries@[0].0@));
            }
        }
        r
    }

    /// The key at a place in the listing, with its value.
    pub fn entry_at(&self, i: usize) -> (r: (&String, &V))
        requires
            i < self.keys().len(),
        ensures
            r.0@ == self.keys()[i as int],
            self@.contains_key(r.0@),
            self@[r.0@] == *r.1,
    {
        proof {
            use_type_invariant(self);
            lemma_entry(self.entries@, i as int);
        }
        (&self.entries[i].0, &self.entries[i].1)
    }

    fn position(&self, key: &str) -> (r: Option<usize>)
        ensures
            match r {
                Some(i) => has_key_at(self.entries@, key@, i as int),
                None => forall|i: int| !has_key_at(self.entries@, key@, i),
            },
    {
        let n = self.entries.len();
        let mut i: usize = 0;
        while i < n
            invariant
                0 <= i <= n == self.entries@.len(),
                forall|k: int| 0 <= k < i ==> !has_key_at(self.entries@, key@, k),
            decreases n - i,
        {
            if same_text(self.entries[i].0.as_str(), key) {
                return Some(i);
            }
            i += 1;
        }
        None
    }

    /// The value of a key.
    pub fn get(&self, key: &str) -> (r: Option<&V>)
        ensures
            match r {
                Some(v) => self@.contains_key(key@) && self@[key@] == *v,
                None => !self@.contains_key(key@),
            },
    {
        match self.position(key) {
            Some(i) => {
                proof {
                    use_type_invariant(self);
                    lemma_entry(self.entries@, i as int);
                }
                Some(&self.entries[i].1)
            },
            None => None,
        }
    }

    /// Sets the value of a key and gives back the value that it had.
    pub fn insert(&mut self, key: String, value: V) -> (r: Option<V>)
        ensures
            final(self)@ == old(self)@.insert(key@, value),
            match r {
                Some(v) => old(self)@.contains_key(key@) && old(self)@[key@] == v,
                None => !old(self)@.contains_key(key@),
            },
    {
        let before = self.remove(key.as_str());
        proof {
            use_type_invariant(&*self);
            assert forall|i: int| !has_key_at(self.entries@, key@, i) by {
                assert(!self@.contains_key(key@));
            }
            lemma_push(self.entries@, (key, value));
            assert(old(self)@.remove(key@).insert(key@, value) =~= old(self)@.insert(key@, value));
        }
        let mut entries: Vec<(String, V)> = Vec::new();
        std::mem::swap(&mut entries, &mut self.entries);
        entries.push((key, value));
        self.entries = entries;
        before
    }

    /// Takes a key out of the map, with its value.
    pub fn remove(&mut self, key: &str) -> (r: Option<V>)
        ensures
            final(self)@ == old(self)@.remove(key@),
            match r {
                Some(v) => old(self)@.contains_key(key@) && old(self)@[key@] == v,
                None => !old(self)@.contains_key(key@),
            },
    {
        proof {
            use_type_invariant(&*self);
        }
        match self.position(key) {
            Some(i) => {
                proof {
                    lemma_entry(self.entries@, i as int);
                    lemma_remove(self.entries@, i as int);
                }
                let mut entries: Vec<(String, V)> = Vec::new();
                std::mem::swap(&mut entries, &mut self.entries);
                let entry = entries.remove(i);
                self.entries = entries;
                Some(entry.1)
            },
            None => {
                assert(self@.remove(key@) =~= self@);
                None
            },
        }
    }
}

impl<V: Clone> Clone for TextMap<V> {
    fn clone(&self) -> (r: Self)
        ensures
            r.keys() == self.keys(),
            r@.dom() == self@.dom(),
            forall|key: Seq<char>| #[trigger]
                self@.contains_key(key) ==> cloned::<V>(self@[key], r@[key]),
    {
        proof {
            use_type_invariant(self);
        }
        let n = self.entries.len();
        let mut entries: Vec<(String, V)> = Vec::with_capacity(n);
        let mut i: usize = 0;
        while i < n
            invariant
                0 <= i <= n == self.entries@.len(),
                entries@.len() == i,
                forall|k: int|
                    #![trigger entries@[k]]
                    0 <= k < i ==> entries@[k].0 == self.entries@[k].0 && cloned::<V>(
                        self.entries@[k].1,
                        entries@[k].1,
                    ),
            decreases n - i,
        {
            entries.push((self.entries[i].0.clone(), self.entries[i].1.clone()));
            i += 1;
        }
        proof {
            assert(distinct_keys(entries@)) by {
                assert forall|a: int, b: int| 0 <= a < b < entries@.len() implies (
                #[trigger] entries@[a]).0@ != (#[trigger] entries@[b]).0@ by {
                    assert(self.entries@[a].0@ != self.entries@[b].0@);
                }
            }
            assert forall|key: Seq<char>| as_map(entries@).contains_key(key) == #[trigger]
                self@.contains_key(key) by {
                if self@.contains_key(key) {
                    let k = choose|k: int| has_key_at(self.entries@, key, k);
                    assert(has_key_at(entries@, key, k));
                }
                if as_map(entries@).contains_key(key) {
                    let k = choose|k: int| has_key_at(entries@, key, k);
                    assert(has_key_at(self.entries@, key, k));
                }
            }
            assert forall|key: Seq<char>| #[trigger] self@.contains_key(key) implies cloned::<V>(
                self@[key],
                as_map(entries@)[key],
            ) by {
                let k = choose|k: int| has_key_at(self.entries@, key, k);
                lemma_entry(self.entries@, k);
                assert(entries@[k].0 == self.entries@[k].0);
                lemma_entry(entries@, k);
            }
        }
        let r = TextMap { entries };
        assert(r@.dom() =~= self@.dom());
        assert(r.keys() =~= self.keys());
        r
    }
}

} // verus!
