//! A map with text keys, kept as a list of entries. Of two entries with the same
//! key the first one counts.

use vstd::prelude::*;

verus! {

pub struct StrMap<V> {
    pub entries: Vec<(String, V)>,
}

/// Some entry has the key.
pub open spec fn has_key<V>(entries: Seq<(String, V)>, key: Seq<char>) -> bool {
    exists|i: int| 0 <= i < entries.len() && #[trigger] entries[i].0@ == key
}

/// The position of the first entry with the key.
pub open spec fn key_index<V>(entries: Seq<(String, V)>, key: Seq<char>) -> int
    decreases entries.len(),
{
    if entries.len() == 0 {
        0
    } else if entries[0].0@ == key {
        0
    } else {
        1 + key_index(entries.skip(1), key)
    }
}

impl<V> View for StrMap<V> {
    type V = Map<Seq<char>, V>;

    open spec fn view(&self) -> Map<Seq<char>, V> {
        let es = self.entries@;
        Map::new(|k: Seq<char>| has_key(es, k), |k: Seq<char>| es[key_index(es, k)].1)
    }
}

/// The position is that of an entry with the key, and no earlier one has it.
pub proof fn lemma_key_index<V>(entries: Seq<(String, V)>, key: Seq<char>)
    requires
        has_key(entries, key),
    ensures
        0 <= key_index(entries, key) < entries.len(),
        entries[key_index(entries, key)].0@ == key,
        forall|j: int| 0 <= j < key_index(entries, key) ==> #[trigger] entries[j].0@ != key,
    decreases entries.len(),
{
    if entries[0].0@ != key {
        let tail = entries.skip(1);
        let w = choose|i: int| 0 <= i < entries.len() && #[trigger] entries[i].0@ == key;
        assert(tail[w - 1].0@ == key);
        lemma_key_index(tail, key);
        assert forall|j: int| 0 <= j < key_index(entries, key) implies #[trigger] entries[j].0@
            != key by {
            if j > 0 {
                assert(entries[j] == tail[j - 1]);
            }
        }
    }
}

/// The first entry with the key is the only one that the two conditions fit.
pub proof fn lemma_key_index_is<V>(entries: Seq<(String, V)>, key: Seq<char>, i: int)
    requires
        0 <= i < entries.len(),
        entries[i].0@ == key,
        forall|j: int| 0 <= j < i ==> #[trigger] entries[j].0@ != key,
    ensures
        has_key(entries, key),
        key_index(entries, key) == i,
{
    lemma_key_index(entries, key);
}

/// An entry added at the end counts only where its key is new.
pub proof fn lemma_push<V>(entries: Seq<(String, V)>, e: (String, V))
    ensures
        forall|k: Seq<char>| #[trigger]
            has_key(entries.push(e), k) <==> has_key(entries, k) || k == e.0@,
        forall|k: Seq<char>|
            has_key(entries, k) ==> #[trigger] key_index(entries.push(e), k) == key_index(
                entries,
                k,
            ),
        !has_key(entries, e.0@) ==> key_index(entries.push(e), e.0@) == entries.len(),
{
    let more = entries.push(e);
    assert forall|k: Seq<char>| #[trigger] has_key(more, k) <==> has_key(entries, k) || k
        == e.0@ by {
        if has_key(entries, k) {
            let i = key_index(entries, k);
            lemma_key_index(entries, k);
            assert(more[i].0@ == k);
        }
        if k == e.0@ {
            assert(more[entries.len() as int].0@ == k);
        }
        if has_key(more, k) && k != e.0@ {
            let i = choose|i: int| 0 <= i < more.len() && #[trigger] more[i].0@ == k;
            assert(entries[i].0@ == k);
        }
    }
    assert forall|k: Seq<char>| has_key(entries, k) implies #[trigger] key_index(more, k)
        == key_index(entries, k) by {
        lemma_key_index(entries, k);
        let i = key_index(entries, k);
        assert(forall|j: int| 0 <= j < i ==> #[trigger] more[j].0@ == entries[j].0@);
        lemma_key_index_is(more, k, i);
    }
    if !has_key(entries, e.0@) {
        assert(forall|j: int| 0 <= j < entries.len() ==> #[trigger] more[j].0@ != e.0@);
        lemma_key_index_is(more, e.0@, entries.len() as int);
    }
}

impl<V> StrMap<V> {
    pub fn new() -> (m: Self)
        ensures
            m@ == Map::<Seq<char>, V>::empty(),
            m.entries@.len() == 0,
    {
        let m = StrMap { entries: Vec::new() };
        assert(m@ =~= Map::<Seq<char>, V>::empty());
        m
    }

    /// The value of the key.
    pub fn get(&self, key: &str) -> (r: Option<&V>)
        ensures
            match r {
                Some(v) => self@.dom().contains(key@) && *v == self@[key@],
                None => !self@.dom().contains(key@),
            },
    {
        let wanted = key.to_owned();
        let mut i: usize = 0;
        while i < self.entries.len()
            invariant
                i <= self.entries@.len(),
                wanted@ == key@,
                forall|j: int| 0 <= j < i ==> #[trigger] self.entries@[j].0@ != key@,
            decreases self.entries@.len() - i,
        {
            if self.entries[i].0 == wanted {
                proof {
                    lemma_key_index_is(self.entries@, key@, i as int);
                }
                return Some(&self.entries[i].1);
            }
            i += 1;
        }
        None
    }

    /// Gives the key a value where it has none.
    pub fn or_insert(&mut self, key: String, value: V)
        ensures
            final(self)@ == (if old(self)@.dom().contains(key@) {
                old(self)@
            } else {
                old(self)@.insert(key@, value)
            }),
            final(self).entries@ == (if old(self)@.dom().contains(key@) {
                old(self).entries@
            } else {
                old(self).entries@.push((key, value))
            }),
    {
        let known = self.get(key.as_str()).is_some();
        if !known {
            proof {
                lemma_push(self.entries@, (key, value));
            }
            let ghost before = self.entries@;
            self.entries.push((key, value));
            proof {
                assert forall|k: Seq<char>|
                    has_key(before, k) implies #[trigger] self.entries@[key_index(before, k)]
                    == before[key_index(before, k)] by {
                    lemma_key_index(before, k);
                }
                assert(self@ =~= old(self)@.insert(key@, value));
            }
        }
    }
}

/// The texts that a map of strings holds.
pub open spec fn text_map(m: Map<Seq<char>, String>) -> Map<Seq<char>, Seq<char>> {
    m.map_values(|s: String| s@)
}

impl Clone for StrMap<String> {
    fn clone(&self) -> (r: Self)
        ensures
            r.entries@ == self.entries@,
            r@ == self@,
    {
        let mut entries: Vec<(String, String)> = Vec::new();
        let mut i: usize = 0;
        while i < self.entries.len()
            invariant
                i <= self.entries@.len(),
                entries@ == self.entries@.take(i as int),
            decreases self.entries@.len() - i,
        {
            entries.push((self.entries[i].0.clone(), self.entries[i].1.clone()));
            i += 1;
        }
        assert(entries@ =~= self.entries@);
        StrMap { entries }
    }
}

} // verus!
